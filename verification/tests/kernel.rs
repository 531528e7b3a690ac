use streamos::framebuffer::FrameBuffer;
use streamos::future::TaskId;
use streamos::game::{handle_key, A_DOWN, A_UP, D_DOWN, D_UP, SPACE_UP};
use streamos::io::vga as wrapping_vga;
use streamos::logger::{LogLevel, LogLevels};
use streamos::multiboot2::FrameBufferInfo;
use streamos::sleep::InterruptWakeupList;
use streamos::vga::{vga_entry, vga_entry_color, TerminalWriter, VgaColor, DEFAULT_COLOR};

#[test]
fn vga_colors_and_entries() {
    assert_eq!(vga_entry_color(VgaColor::LightGrey, VgaColor::Black), DEFAULT_COLOR);
    assert_eq!(vga_entry_color(VgaColor::White, VgaColor::Blue), 0x1f);
    assert_eq!(vga_entry(b'A', 0x1f), 0x1f41);
}

#[test]
fn vga_writer_places_characters_and_newlines() {
    let mut w = TerminalWriter::new();
    let cells = w.write(b"ab\ncd");
    assert_eq!(
        cells,
        vec![(0, 0x0761), (1, 0x0762), (80, 0x0763), (81, 0x0764)]
    );
    w.set_color(0x1f);
    assert_eq!(w.putchar(b'x'), Some((82, 0x1f78)));
    assert_eq!(w.putchar(b'\n'), None);
    assert_eq!(w.putchar(b'y'), Some((160, 0x1f79)));
}

#[test]
fn vga_clear_screen() {
    let w = TerminalWriter::new();
    let cells = w.init();
    assert_eq!(cells.len(), 80 * 25);
    assert!(cells.iter().all(|c| *c == 0x0720));
    let blue = wrapping_vga::init(0x10);
    assert_eq!(blue.len(), 2000);
    assert!(blue.iter().all(|c| *c == 0x1020));
}

#[test]
fn wrapping_console_returns_to_the_top() {
    let mut shared = wrapping_vga::StaticTerminalWriter::new();
    let w = shared.borrow_mut();
    for _ in 0..24 {
        assert_eq!(w.putchar(b'\n'), None);
    }
    let mut line = vec![b'-'; 79];
    line.push(b'!');
    let cells = w.write(&line);
    assert_eq!(cells.len(), 80);
    assert_eq!(cells[79], (1999, 0x0721));
    assert_eq!(w.putchar(b'z'), Some((0, 0x077a)));
}

#[test]
fn wakeups_come_in_order_of_tick() {
    let mut list = InterruptWakeupList::new();
    list.push_wakeup(30, "c");
    list.push_wakeup(10, "a");
    list.push_wakeup(20, "b1");
    list.push_wakeup(20, "b2");
    assert!(list.wakeup_if_neccessary(5).is_empty());
    assert_eq!(list.wakeup_if_neccessary(20), vec!["a", "b1", "b2"]);
    assert!(list.wakeup_if_neccessary(20).is_empty());
    list.push_wakeup(25, "d");
    assert_eq!(list.wakeup_if_neccessary(100), vec!["d", "c"]);
    assert!(list.wakeup_if_neccessary(usize::MAX).is_empty());
}

fn fb_info() -> FrameBufferInfo {
    FrameBufferInfo {
        color_size: 8,
        red_offset: 2,
        blue_offset: 0,
        green_offset: 1,
        bytes_per_pix: 4,
        width: 1024,
        pitch: 4096,
        height: 768,
        addr: 0xfd00_0000,
    }
}

#[test]
fn framebuffer_geometry() {
    let fb = FrameBuffer::new(fb_info());
    assert_eq!(fb.width(), 1024);
    assert_eq!(fb.height(), 768);
    assert_eq!(fb.addr(), 0xfd00_0000);
    assert_eq!(fb.color_layout(), (8, 2, 1, 0));
    assert_eq!(fb.pixel_offset(0, 0), 0);
    assert_eq!(fb.pixel_offset(2, 3), 2 * 4096 + 3 * 4);
}

#[test]
fn paddle_keys() {
    assert_eq!(handle_key(0, false, D_DOWN), (1, false));
    assert_eq!(handle_key(1, false, D_UP), (0, false));
    assert_eq!(handle_key(-1, false, D_UP), (-1, false));
    assert_eq!(handle_key(0, false, A_DOWN), (-1, false));
    assert_eq!(handle_key(-1, false, A_UP), (0, false));
    assert_eq!(handle_key(1, false, A_UP), (1, false));
    assert_eq!(handle_key(1, false, SPACE_UP), (1, true));
    assert_eq!(handle_key(1, true, SPACE_UP), (1, false));
    assert_eq!(handle_key(-1, true, 0x10), (-1, true));
}

#[test]
fn task_ids_count_up() {
    let id = TaskId(41);
    assert!(id.next() == TaskId(42));
}

#[test]
fn log_levels_by_module() {
    let levels = LogLevels::new(vec![
        ("net".to_string(), LogLevel::Debug),
        ("usb".to_string(), LogLevel::Error),
        ("net".to_string(), LogLevel::Warning),
    ]);
    assert!(levels.get_level("net") == LogLevel::Warning);
    assert!(levels.get_level("usb") == LogLevel::Error);
    assert!(levels.get_level("vga") == LogLevel::Info);
    assert!(!levels.enabled("net", LogLevel::Info));
    assert!(levels.enabled("net", LogLevel::Warning));
    assert!(!levels.enabled("usb", LogLevel::Warning));
    assert!(!levels.enabled("vga", LogLevel::Debug));
    assert!(levels.enabled("vga", LogLevel::Info));
    assert_eq!(LogLevel::Warning.name(), "WARNING");
    assert_eq!(LogLevel::Debug.rank(), 0);
    assert_eq!(LogLevel::Error.rank(), 3);
}
