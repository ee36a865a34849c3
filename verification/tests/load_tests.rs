use std::io::Write;
use yamlquill::file::loader::{decompress_gzip_bytes, loaded_text, stdin_text, LoadError};
use yamlquill::file::validate::{check_saved_text, document_lines, lines_of};

fn gzip(text: &str) -> Vec<u8> {
    let mut e = flate2::write::GzEncoder::new(Vec::new(), flate2::Compression::default());
    e.write_all(text.as_bytes()).unwrap();
    e.finish().unwrap()
}

#[test]
fn test_loaded_text_by_extension() {
    assert_eq!(loaded_text("a.yaml", b"k: 1\n".to_vec()), Ok("k: 1\n".to_string()));
    assert_eq!(loaded_text("a.yaml.gz", gzip("k: 2\n")), Ok("k: 2\n".to_string()));
    assert_eq!(loaded_text("a.yaml.gz", b"k: 1\n".to_vec()), Err(LoadError::Decompress));
    assert_eq!(loaded_text("a.yaml", gzip("k: 2\n")), Err(LoadError::NotUtf8));
    assert_eq!(loaded_text(".gz", b"x".to_vec()), Ok("x".to_string()));
    assert_eq!(loaded_text("a.yaml", vec![0xff, 0xfe]), Err(LoadError::NotUtf8));
}

#[test]
fn test_stdin_text_by_magic_bytes() {
    assert_eq!(stdin_text(gzip("a: [1]\n")), Ok("a: [1]\n".to_string()));
    assert_eq!(stdin_text(b"a: 1".to_vec()), Ok("a: 1".to_string()));
    assert_eq!(stdin_text(vec![0x1f, 0x8b, 0x00]), Err(LoadError::Decompress));
    assert_eq!(stdin_text(vec![0xc3]), Err(LoadError::NotUtf8));
}

#[test]
fn test_decompress_gzip_bytes() {
    assert_eq!(decompress_gzip_bytes(&gzip("\u{e9}")), Some("\u{e9}".to_string()));
    assert_eq!(decompress_gzip_bytes(b"plain"), None);
}

#[test]
fn test_check_saved_text_whole_and_by_line() {
    assert_eq!(check_saved_text("a: 1\nb: [2]\n", false), Ok(()));
    assert_eq!(check_saved_text("a: [1\n", false), Err(None));
    assert_eq!(check_saved_text("{\"a\": 1}\n{\"b\": 2}\n", true), Ok(()));
    assert_eq!(check_saved_text("{\"a\": 1}\r\n{\"b\": [\n{\"c\": 3}", true), Err(Some(2)));
    assert_eq!(check_saved_text("1\n2\n{", true), Err(Some(3)));
}

#[test]
fn test_document_lines_skip_blank_lines() {
    let r = document_lines("{\"a\": 1}\n  \n\r\n{\"b\": 2}\r\n\t\n3");
    assert_eq!(r, vec![(1, "{\"a\": 1}".to_string()), (4, "{\"b\": 2}".to_string()), (6, "3".to_string())]);
    assert!(document_lines("\n \n").is_empty());
    assert_eq!(lines_of("a\r\nb\n\nc\r"), vec!["a".to_string(), "b".to_string(), "".to_string(), "c\r".to_string()]);
}
