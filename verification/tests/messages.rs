use crusty::gba::error::InstructionDecodeError;
use crusty::memory::MemoryError;

#[test]
fn memory_error_messages() {
    assert_eq!(
        MemoryError::OutOfBounds(0x3000010, 4).message(),
        "Memory Address is out of bounds: 0x03000010 index: 0x00000004"
    );
    assert_eq!(
        MemoryError::MapNotFound(0x1000000).message(),
        "Memory Mapping not found for address: 0x01000000"
    );
}

#[test]
fn decode_error_messages() {
    assert_eq!(
        InstructionDecodeError::ConditionalNotValid { value: 4026531840, cond: 15 }.message(),
        "Condition 15 not valid for instruction: 4026531840"
    );
    assert_eq!(
        InstructionDecodeError::NoMatchingOperation(7).message(),
        "No matching operation for instruction: 7"
    );
}
