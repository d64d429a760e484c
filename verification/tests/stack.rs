use lib::memory::{Memory, MemoryError, MemoryType};
use lib::stack::{SavedRegs, Stack};
use lib::store::Store;

#[test]
fn grow_with_stack_repoints_frames_on_the_chain() {
    let mut store = Store::new(1);
    let m = Memory::new(&mut store, MemoryType::new(1, Some(4)));
    let o = Memory::new(&mut store, MemoryType::new(1, None));
    let mut stack = Stack::new();
    stack.push(SavedRegs { md: Some(m), ms: 1, sp: 0 });
    stack.push(SavedRegs { md: Some(m), ms: 1, sp: 0 });
    stack.push(SavedRegs { md: Some(o), ms: 1, sp: 1 });
    stack.push(SavedRegs { md: Some(m), ms: 1, sp: 3 });
    stack.push(SavedRegs { md: None, ms: 0, sp: 4 });
    assert_eq!(m.grow_with_stack(&mut store, &mut stack, 2), Ok(1));
    assert_eq!(m.size(&store), 3);
    let frames = stack.frames();
    assert_eq!(frames[0], SavedRegs { md: Some(m), ms: 3, sp: 0 });
    assert_eq!(frames[1], SavedRegs { md: Some(m), ms: 1, sp: 0 });
    assert_eq!(frames[2], SavedRegs { md: Some(o), ms: 1, sp: 1 });
    assert_eq!(frames[3], SavedRegs { md: Some(m), ms: 3, sp: 3 });
    assert_eq!(frames[4], SavedRegs { md: None, ms: 0, sp: 4 });
}

#[test]
fn failed_grow_with_stack_changes_nothing() {
    let mut store = Store::new(1);
    let m = Memory::new(&mut store, MemoryType::new(1, Some(2)));
    let mut stack = Stack::new();
    stack.push(SavedRegs { md: Some(m), ms: 1, sp: 0 });
    assert_eq!(m.grow_with_stack(&mut store, &mut stack, 2), Err(MemoryError::FailedToGrow));
    assert_eq!(m.size(&store), 1);
    assert_eq!(stack.frames()[0], SavedRegs { md: Some(m), ms: 1, sp: 0 });
}

#[test]
fn repoint_other_memory_changes_nothing() {
    let mut store = Store::new(1);
    let m = Memory::new(&mut store, MemoryType::new(0, None));
    let o = Memory::new(&mut store, MemoryType::new(0, None));
    let mut stack = Stack::new();
    stack.push(SavedRegs { md: Some(o), ms: 0, sp: 0 });
    stack.repoint(m, 7);
    assert_eq!(stack.frames()[0], SavedRegs { md: Some(o), ms: 0, sp: 0 });
    stack.repoint(o, 7);
    assert_eq!(stack.frames()[0], SavedRegs { md: Some(o), ms: 7, sp: 0 });
}
