use streamos::libc::{
    fread, fseek, ftell, left_pad, memcmp, memcpy, memmove, memset, parse_format_specifier,
    parse_precision, strcmp, strdup, strlen, strncasecmp, strncmp, strncpy, toupper, File,
    FileCursor, Format, PointerWriter, PrintfArg, PrintfWriter, SEEK_CUR, SEEK_END, SEEK_SET,
};

#[test]
fn memory_functions() {
    let mut buf = [1u8; 6];
    memset(&mut buf, 0x1ff, 4);
    assert_eq!(buf, [0xff, 0xff, 0xff, 0xff, 1, 1]);

    let mut d = [0u8; 5];
    memcpy(&mut d, b"abcdef", 3);
    assert_eq!(&d, b"abc\0\0");

    assert_eq!(memcmp(b"abcd", b"abcd", 4), 0);
    assert_eq!(memcmp(b"abcd", b"abzd", 4), (b'c' as i32) - (b'z' as i32));
    assert_eq!(memcmp(b"abcd", b"abzd", 2), 0);

    let mut m = *b"0123456789";
    memmove(&mut m, 2, 0, 5);
    assert_eq!(&m, b"0101234789");
    let mut m = *b"0123456789";
    memmove(&mut m, 0, 3, 4);
    assert_eq!(&m, b"3456456789");
}

#[test]
fn string_functions() {
    assert_eq!(strlen(b"hello\0world\0"), 5);
    assert_eq!(strlen(b"\0"), 0);

    let mut d = [9u8; 8];
    strncpy(&mut d, b"hi\0", 8);
    assert_eq!(d, [b'h', b'i', 0, 9, 9, 9, 9, 9]);
    let mut d = [9u8; 8];
    strncpy(&mut d, b"hello\0", 2);
    assert_eq!(d, [b'h', b'e', 9, 9, 9, 9, 9, 9]);

    assert_eq!(strdup(b"abc\0zzz"), b"abc\0".to_vec());

    assert_eq!(strcmp(b"abc\0", b"abc\0"), 0);
    assert!(strcmp(b"abc\0", b"abd\0") < 0);
    assert_eq!(strcmp(b"abcd\0", b"abc\0"), b'd' as i32);
    assert_eq!(strcmp(b"abc\0", b"abcd\0"), -(b'd' as i32));
    assert_eq!(strcmp(b"ab\xff\0", b"ab\0"), -1);
    assert_eq!(strcmp(b"ab\0", b"ab\x80\0"), -128);

    assert_eq!(strncmp(b"abcx\0", b"abcy\0", 3), 0);
    assert!(strncmp(b"abcx\0", b"abcy\0", 4) < 0);
    assert_eq!(strncasecmp(b"HeLLo\0", b"hello\0", 10), 0);
    assert_eq!(strncasecmp(b"ABC\0", b"abd\0", 2), 0);
    assert!(strncasecmp(b"ABC\0", b"abd\0", 3) < 0);

    assert_eq!(toupper(b'a' as i32), b'A' as i32);
    assert_eq!(toupper(b'Z' as i32), b'Z' as i32);
    assert_eq!(toupper(0x161), b'A' as i32);
}

#[test]
fn format_specifiers() {
    let s = b"%.3d\0";
    let spec = parse_format_specifier(s, 0).unwrap();
    assert_eq!(spec.format_specifier_length, 4);
    assert_eq!(spec.precision, Some(3));
    assert!(spec.format == Format::Int);
    assert!(parse_format_specifier(b"x%d\0", 0).is_none());
    let spec = parse_format_specifier(b"%q\0", 0).unwrap();
    assert!(spec.format == Format::Unknown(b'q'));
    assert!(spec.format.to_size().is_err());
    assert_eq!(Format::Int.to_size(), Ok(4));
    assert_eq!(Format::Pointer.to_size(), Ok(core::mem::size_of::<usize>() as i32));
    assert_eq!(parse_precision(b".12x\0", 0), (3, Some(12)));
    assert_eq!(parse_precision(b"x\0", 0), (0, None));
}

#[test]
fn left_padding() {
    assert_eq!(left_pad(b"42".to_vec(), b'0', Some(5)), b"00042".to_vec());
    assert_eq!(left_pad(b"42".to_vec(), b'0', Some(1)), b"42".to_vec());
    assert_eq!(left_pad(b"42".to_vec(), b'0', None), b"42".to_vec());
    assert_eq!(left_pad(b"-5".to_vec(), b'0', Some(4)), b"00-5".to_vec());
}

fn run_printf(format: &[u8], args: Vec<PrintfArg>) -> Vec<u8> {
    let mut p = PrintfWriter::printf_parser_new(format.to_vec());
    let mut out = Vec::new();
    let mut args = args.into_iter();
    loop {
        let size = p.advance();
        out.extend(p.take_output());
        if size == 0 {
            break;
        }
        p.push_arg(args.next().unwrap());
        out.extend(p.take_output());
    }
    out
}

#[test]
fn printf_engine() {
    let out = run_printf(
        b"a=%d b=%.4x c=%c s=%s n=%s o=%o p=%p!\0",
        vec![
            PrintfArg::Int(-12),
            PrintfArg::Int(255),
            PrintfArg::Char(b'z'),
            PrintfArg::Str(Some(b"str".to_vec())),
            PrintfArg::Str(None),
            PrintfArg::Int(8),
            PrintfArg::Pointer(0x1234),
        ],
    );
    assert_eq!(out, b"a=-12 b=00ff c=z s=str n=(null) o=10 p=0x1234!".to_vec());
    assert_eq!(run_printf(b"%x\0", vec![PrintfArg::Int(-1)]), b"ffffffff".to_vec());
    assert_eq!(run_printf(b"%c\0", vec![PrintfArg::Char(0xe9)]), "\u{e9}".as_bytes().to_vec());
    assert_eq!(run_printf(b"%i\0", vec![PrintfArg::Int(i32::MIN)]), b"-2147483648".to_vec());
}

#[test]
fn printf_into_a_buffer() {
    let mut p = PrintfWriter::printf_parser_new_with_buf(b"abc%d\0".to_vec(), 5);
    assert_eq!(p.advance(), 4);
    assert!(p.pending_format() == Some(Format::Int));
    p.push_arg(PrintfArg::Int(1234));
    assert_eq!(p.advance(), 0);
    assert_eq!(p.take_output(), b"abc12".to_vec());

    let mut w = PointerWriter::new(3);
    w.write_str(b"ab");
    w.write_str(b"cd");
    assert_eq!(w.take_written(), b"abc".to_vec());
}

#[test]
fn printf_to_a_file_needs_stdout() {
    let mut p = PrintfWriter::printf_parser_new_with_file(b"x\0".to_vec(), &File::Stdout);
    assert_eq!(p.advance(), 0);
    assert_eq!(p.take_output(), b"x".to_vec());
}

#[test]
fn file_cursors() {
    let data = b"0123456789";
    let mut f = File::File(FileCursor { pos: 0 });
    assert_eq!(fseek(&mut f, 4, SEEK_SET, data.len()), 0);
    assert_eq!(ftell(&f), 4);
    assert_eq!(fseek(&mut f, -2, SEEK_CUR, data.len()), 0);
    assert_eq!(ftell(&f), 2);
    assert_eq!(fseek(&mut f, 3, SEEK_END, data.len()), 0);
    assert_eq!(ftell(&f), 7);

    let (bytes, items) = fread(&mut f, data, 2, 2);
    assert_eq!(bytes, b"789".to_vec());
    assert_eq!(items, 1);
    assert_eq!(ftell(&f), 10);

    let mut out = File::Stdout;
    assert_eq!(fseek(&mut out, 1, SEEK_SET, 0), -1);
    assert_eq!(ftell(&out), -1);
    assert_eq!(fread(&mut out, data, 1, 1), (Vec::new(), 0));
    assert!(File::Stdout == File::Stdout);
    assert!(File::File(FileCursor { pos: 0 }) != File::File(FileCursor { pos: 0 }));
}
