use axnet::backtrace::{
    init, is_enabled, max_depth, set_max_depth, unwind_stack, Backtrace, Frame, StackImage,
};

fn chain_image() -> StackImage {
    // a stack with three linked frames and a terminating frame pointer
    StackImage {
        words: vec![
            (0x1000, Frame { fp: 0x1040, ip: 0x40_0010 }),
            (0x1040, Frame { fp: 0x1080, ip: 0x40_0020 }),
            (0x1080, Frame { fp: 0, ip: 0x40_0030 }),
        ],
    }
}

const IP_RANGE: (usize, usize) = (0x40_0000, 0x50_0000);
const FP_RANGE: (usize, usize) = (0x1000, 0x2000);

#[test]
fn unwind_follows_the_frame_chain() {
    let image = chain_image();
    let frames = unwind_stack(&image, 0x1000, IP_RANGE, FP_RANGE, 16);
    assert_eq!(
        frames,
        vec![
            Frame { fp: 0x1040, ip: 0x40_0010 },
            Frame { fp: 0x1080, ip: 0x40_0020 },
            Frame { fp: 0, ip: 0x40_0030 },
        ]
    );
}

#[test]
fn unwind_respects_the_depth_bound() {
    let image = chain_image();
    let frames = unwind_stack(&image, 0x1000, IP_RANGE, FP_RANGE, 2);
    assert_eq!(frames.len(), 2);
    assert_eq!(frames[0], Frame { fp: 0x1040, ip: 0x40_0010 });
}

#[test]
fn unwind_stops_outside_plausible_ranges() {
    let image = chain_image();

    // a misaligned frame pointer stops the walk before any frame
    assert!(unwind_stack(&image, 0x1001, IP_RANGE, FP_RANGE, 16).is_empty());
    // a frame pointer outside the stack range as well
    assert!(unwind_stack(&image, 0x3000, IP_RANGE, FP_RANGE, 16).is_empty());
    // a return address outside the text range ends the walk
    let frames = unwind_stack(&image, 0x1000, (0x40_0000, 0x40_0018), FP_RANGE, 16);
    assert_eq!(frames.len(), 1);
}

#[test]
fn unwind_stops_at_unreadable_memory() {
    let image = StackImage { words: vec![(0x1000, Frame { fp: 0x1040, ip: 0x40_0010 })] };
    // the second frame is not readable: the walk ends after the first
    let frames = unwind_stack(&image, 0x1000, IP_RANGE, FP_RANGE, 16);
    assert_eq!(frames.len(), 1);
}

#[test]
fn adjust_ip_points_into_the_call() {
    let f = Frame { fp: 0, ip: 0x40_0010 };
    assert_eq!(f.adjust_ip(), 0x40_000f);
    let f = Frame { fp: 0, ip: 0 };
    assert_eq!(f.adjust_ip(), usize::MAX);
}

#[test]
fn depth_configuration() {
    let mut config = init();
    assert_eq!(max_depth(&config), 16);
    set_max_depth(&mut config, 64);
    assert_eq!(max_depth(&config), 64);
    // zero is refused
    set_max_depth(&mut config, 0);
    assert_eq!(max_depth(&config), 64);
}

#[test]
fn capture_without_symbolization() {
    assert!(!is_enabled());
    let bt = Backtrace::capture();
    assert!(bt.frames().is_none());

    let image = chain_image();
    let config = init();
    let bt = Backtrace::capture_from(&image, 0x1000, IP_RANGE, FP_RANGE, &config);
    let frames = bt.frames().unwrap();
    assert_eq!(frames.len(), 3);
    assert_eq!(frames[0].ip, 0x40_0010);
}
