use trifit::config::{InputConfig, OutputConfig};
use trifit::swsrasv::new_pair;

#[test]
fn nothing_is_read_before_anything_is_written() {
    let (_writer, mut reader) = new_pair::<u32>();
    assert_eq!(reader.read(), None);
    assert_eq!(reader.read(), None);
}

#[test]
fn a_value_is_read_once() {
    let (mut writer, mut reader) = new_pair();
    writer.write(7u32);
    assert_eq!(reader.read(), Some(Box::new(7)));
    assert_eq!(reader.read(), None);
    writer.write_boxed(Box::new(8));
    assert_eq!(reader.read(), Some(Box::new(8)));
}

#[test]
fn only_the_latest_value_is_read() {
    let (mut writer, mut reader) = new_pair();
    writer.write(String::from("first"));
    writer.write(String::from("second"));
    writer.write(String::from("third"));
    assert_eq!(reader.read().as_deref(), Some(&String::from("third")));
    assert_eq!(reader.read(), None);
}

#[test]
fn the_reader_outlives_the_writer() {
    let (mut writer, mut reader) = new_pair();
    writer.write(vec![1u8, 2, 3]);
    drop(writer);
    assert_eq!(reader.read(), Some(Box::new(vec![1, 2, 3])));
    assert_eq!(reader.read(), None);
}

#[test]
fn settings_are_plain_values() {
    let input = InputConfig { pixels_per_block: 50, verts_per_block: 1 };
    assert_eq!(input, InputConfig { pixels_per_block: 50, verts_per_block: 1 });
    assert_ne!(input, InputConfig { pixels_per_block: 50, verts_per_block: 2 });
    assert_eq!(OutputConfig {}, OutputConfig {});
}
