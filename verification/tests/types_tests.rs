use heat_vm::h_type::{get_size, HType};
use heat_vm::types::VirtualObject;

#[test]
fn virtual_object_set_get_bool() {
    let mut vobj = VirtualObject::new_empty(HType::Bool);

    vobj.set_bool(&true);

    assert_eq!(vobj.get_bool(), true);
}

#[test]
fn virtual_object_set_get_u8() {
    let mut vobj = VirtualObject::new_empty(HType::U8);

    vobj.set_u8(&(u8::MAX));

    assert_eq!(vobj.get_u8(), u8::MAX);
}

#[test]
fn virtual_object_set_get_u16() {
    let mut vobj = VirtualObject::new_empty(HType::U8);

    vobj.set_u16(&(u16::MAX));

    assert_eq!(vobj.get_u16(), u16::MAX);
}

#[test]
fn virtual_object_set_get_u32() {
    let mut vobj = VirtualObject::new_empty(HType::U8);

    vobj.set_u32(&(u32::MAX));

    assert_eq!(vobj.get_u32(), u32::MAX);
}

#[test]
fn virtual_object_set_get_u64() {
    let mut vobj = VirtualObject::new_empty(HType::U8);

    vobj.set_u64(&(u64::MAX));

    assert_eq!(vobj.get_u64(), u64::MAX);
}

#[test]
fn allocation_width_and_zero_fill() {
    let tags = [HType::Bool, HType::U8, HType::U16, HType::U32, HType::U64];
    let widths = [1usize, 1, 2, 4, 8];
    for k in 0..tags.len() {
        let obj = VirtualObject::new_empty(tags[k]);
        assert_eq!(obj.data.len(), widths[k]);
        assert_eq!(obj.data_type, tags[k]);
        assert!(obj.data.iter().all(|b| *b == 0));
        assert_eq!(get_size(tags[k]), widths[k]);
    }
}

#[test]
fn allocation_idempotent_and_independent() {
    let a = VirtualObject::new_empty(HType::U32);
    let mut b = VirtualObject::new_empty(HType::U32);
    assert_eq!(a, b);
    b.set_u32(&7);
    assert_ne!(a, b);
    assert_eq!(a.get_u32(), 0);
}

#[test]
fn structural_equality_tag_and_bytes() {
    let a = VirtualObject::from(5u8);
    let b = VirtualObject::from(5u8);
    let c = VirtualObject::from(6u8);
    assert_eq!(a, b);
    assert_ne!(a, c);
    let d = VirtualObject::new_empty(HType::Bool);
    let e = VirtualObject::new_empty(HType::U8);
    assert_ne!(d, e);
}

#[test]
fn literal_constructors_carry_tag_and_value() {
    assert_eq!(VirtualObject::from(true).get_bool(), true);
    assert_eq!(VirtualObject::from(false).get_bool(), false);
    let a = VirtualObject::from(0x1234u16);
    assert_eq!(a.data_type, HType::U16);
    assert_eq!(a.get_u16(), 0x1234);
    assert_eq!(a.data, vec![0x12, 0x34]);
    let b = VirtualObject::from(0x1020_3040u32);
    assert_eq!(b.data_type, HType::U32);
    assert_eq!(b.get_u32(), 0x1020_3040);
    let c = VirtualObject::from(0x0102_0304_0506_0708u64);
    assert_eq!(c.data_type, HType::U64);
    assert_eq!(c.get_u64(), 0x0102_0304_0506_0708);
}

#[test]
fn new_max_fills_with_max_bytes() {
    let obj = VirtualObject::new_max(HType::U16);
    assert_eq!(obj.data, vec![0xff, 0xff]);
    assert_eq!(obj.get_u16(), u16::MAX);
}
