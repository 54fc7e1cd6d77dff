use stm32_emulator::peripherals::nvic::{
    exception_frame_size, frame_layout, frame_pop_plan, frame_push_plan, FrameSlot,
};

#[test]
fn basic_frame_is_pushed_from_xpsr_down_to_r0() {
    let (sp, plan) = frame_push_plan(0x2000_1000, false);
    assert_eq!(sp, 0x2000_0fe0);
    assert_eq!(plan.len(), 8);
    assert_eq!(plan[0], (0x2000_0ffc, FrameSlot::Xpsr));
    assert_eq!(plan[1], (0x2000_0ff8, FrameSlot::Pc));
    assert_eq!(plan[7], (0x2000_0fe0, FrameSlot::R0));
}

#[test]
fn extended_frame_keeps_a_reserved_word_above_fpscr() {
    let layout = frame_layout(true);
    assert_eq!(layout.len() as u32 * 4, exception_frame_size(true));
    assert_eq!(layout[8], FrameSlot::S(0));
    assert_eq!(layout[23], FrameSlot::S(15));
    assert_eq!(layout[24], FrameSlot::Fpscr);
    assert_eq!(layout[25], FrameSlot::Reserved);
    let (sp, plan) = frame_push_plan(0x2000_1000, true);
    assert_eq!(sp, 0x2000_1000 - 104);
    assert_eq!(plan[0], (0x2000_0ffc, FrameSlot::Reserved));
    assert_eq!(plan[1], (0x2000_0ff8, FrameSlot::Fpscr));
    assert_eq!(plan[25], (0x2000_0f98, FrameSlot::R0));
}

#[test]
fn popping_reads_every_word_where_pushing_wrote_it() {
    for fpca in [false, true] {
        let (low, pushed) = frame_push_plan(0x2000_1000, fpca);
        let (high, popped) = frame_pop_plan(low, fpca);
        assert_eq!(high, 0x2000_1000);
        for (k, entry) in popped.iter().enumerate() {
            assert_eq!(*entry, pushed[pushed.len() - 1 - k]);
        }
        assert_eq!(popped.len(), if fpca { 25 } else { 8 });
    }
}
