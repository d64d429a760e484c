use lib::decode::{DecodeError, Decoder};
use lib::memory::MemoryType;
use lib::reference::RefType;
use lib::table::TableType;

#[test]
fn read_u32_values() {
    let bytes = [0xE5, 0x8E, 0x26, 0x07];
    let mut d = Decoder::new(&bytes);
    assert_eq!(d.read_u32(), Ok(624485));
    assert_eq!(d.position(), 3);
    assert_eq!(d.read_u32(), Ok(7));
    assert!(d.is_at_end());
    let bytes = [0xFF, 0xFF, 0xFF, 0xFF, 0x0F];
    assert_eq!(Decoder::new(&bytes).read_u32(), Ok(u32::MAX));
    let bytes = [0x80, 0x80, 0x80, 0x80, 0x00];
    assert_eq!(Decoder::new(&bytes).read_u32(), Ok(0));
}

#[test]
fn read_u32_errors_leave_decoder_unchanged() {
    let bytes = [0xFF, 0xFF, 0xFF, 0xFF, 0x10];
    let mut d = Decoder::new(&bytes);
    assert_eq!(d.read_u32(), Err(DecodeError::IntegerTooLarge));
    assert_eq!(d.position(), 0);
    let bytes = [0x80, 0x80, 0x80, 0x80, 0x80, 0x00];
    assert_eq!(Decoder::new(&bytes).read_u32(), Err(DecodeError::IntegerTooLong));
    let bytes = [0x80, 0x80];
    let mut d = Decoder::new(&bytes);
    assert_eq!(d.read_u32(), Err(DecodeError::UnexpectedEnd));
    assert_eq!(d.position(), 0);
    assert_eq!(Decoder::new(&[]).read_byte(), Err(DecodeError::UnexpectedEnd));
}

#[test]
fn decode_memory_type() {
    let bytes = [0x00, 0x02];
    let mut d = Decoder::new(&bytes);
    let ty = MemoryType::decode(&mut d).unwrap();
    assert_eq!(ty, MemoryType::new(2, None));
    assert_eq!(d.position(), 2);
    let bytes = [0x01, 0x01, 0x80, 0x01];
    let mut d = Decoder::new(&bytes);
    assert_eq!(MemoryType::decode(&mut d), Ok(MemoryType::new(1, Some(128))));
    assert!(d.is_at_end());
    let bytes = [0x02, 0x01];
    let mut d = Decoder::new(&bytes);
    assert_eq!(MemoryType::decode(&mut d), Err(DecodeError::InvalidMemoryType));
    assert_eq!(d.position(), 0);
    let bytes = [0x01, 0x01];
    let mut d = Decoder::new(&bytes);
    assert_eq!(MemoryType::decode(&mut d), Err(DecodeError::UnexpectedEnd));
    assert_eq!(d.position(), 0);
}

#[test]
fn decode_table_type() {
    let bytes = [0x70, 0x01, 0x01, 0x0A];
    let mut d = Decoder::new(&bytes);
    assert_eq!(TableType::decode(&mut d), Ok(TableType::new(RefType::FuncRef, 1, Some(10))));
    assert!(d.is_at_end());
    let bytes = [0x6F, 0x00, 0x00];
    assert_eq!(TableType::decode(&mut Decoder::new(&bytes)), Ok(TableType::new(RefType::ExternRef, 0, None)));
    let bytes = [0x6E, 0x00, 0x00];
    assert_eq!(TableType::decode(&mut Decoder::new(&bytes)), Err(DecodeError::MalformedRefType));
    let bytes = [0x70, 0x03, 0x00];
    let mut d = Decoder::new(&bytes);
    assert_eq!(TableType::decode(&mut d), Err(DecodeError::InvalidTableType));
    assert_eq!(d.position(), 0);
    assert_eq!(RefType::decode(&mut Decoder::new(&[0x70])), Ok(RefType::FuncRef));
}

#[test]
fn decode_error_messages() {
    assert_eq!(DecodeError::UnexpectedEnd.message(), "unexpected end");
    assert_eq!(DecodeError::IntegerTooLong.message(), "integer representation too long");
    assert_eq!(DecodeError::IntegerTooLarge.message(), "integer too large");
    assert_eq!(DecodeError::InvalidMemoryType.message(), "invalid memory type");
    assert_eq!(DecodeError::InvalidTableType.message(), "invalid table type");
    assert_eq!(DecodeError::MalformedRefType.message(), "malformed reference type");
}
