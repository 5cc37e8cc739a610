use std::collections::VecDeque;

use teeter::audio::{log_genre_change, peak_log_due, Genre};
use teeter::cli::{parse_boot_args, parse_index, same_text, BootArgs};
use teeter::engine::{next_frame_count, next_preset_index, next_synth_preset, preset_hash};
use teeter::fivecell::edge_indices;
use teeter::input::{
    axis_target, button_action, mix_step, AxisTarget, ButtonAction, InputEdges, KeyCode, MixStep,
    NamedKey, PadAxis, PadButton, TriggerLatch,
};
use teeter::ring::{push_block, trim_ring, window_from_ring};
use teeter::vulkan::{
    choose_preferred, find_memory_type, find_queue_family, first_error, resize_target,
    swapchain_extent, swapchain_image_count, to_u32s, transition_access, warp_meta, window_extent,
    Access, FrameImage, FrameOp, ImageLayout, RenderState, MAX_FRAMES_IN_FLIGHT, frame_ops,
};

#[test]
fn edge_indices_are_the_complete_graph_on_five_vertices() {
    let e = edge_indices();
    assert_eq!(e, [0, 1, 0, 2, 0, 3, 0, 4, 1, 2, 1, 3, 1, 4, 2, 3, 2, 4, 3, 4]);
    let mut seen = Vec::new();
    for pair in e.chunks(2) {
        assert!(pair[0] < pair[1] && pair[1] < 5);
        assert!(!seen.contains(&(pair[0], pair[1])));
        seen.push((pair[0], pair[1]));
    }
    assert_eq!(seen.len(), 10);
}

#[test]
fn warp_meta_names_only_the_newer_warps() {
    for idx in 0..13 {
        assert_eq!(warp_meta(idx), None);
    }
    assert_eq!(warp_meta(13), Some(("kaleido mandala", "sacred geometry")));
    assert_eq!(warp_meta(14), Some(("hex lattice", "geometric")));
    assert_eq!(warp_meta(15), Some(("crystal pillars", "crystalline")));
    assert_eq!(warp_meta(16), Some(("interference moiré", "optical")));
    assert_eq!(warp_meta(17), Some(("star mandala", "sacred geometry")));
    assert_eq!(warp_meta(18), Some(("infinite staircase", "surreal")));
    assert_eq!(warp_meta(19), Some(("lowpoly shards", "chromatic")));
    assert_eq!(warp_meta(20), None);
    assert_eq!(warp_meta(usize::MAX), None);
}

#[test]
fn next_shader_cycles_through_all_shaders() {
    let mut s = RenderState::new(20);
    assert_eq!(s.shader_index(), 0);
    assert_eq!(s.shader_count(), 20);
    for k in 1..=20 {
        s.next_shader();
        assert_eq!(s.shader_index(), k % 20);
        assert!(s.take_freeze());
        assert!(!s.take_freeze());
    }
    assert_eq!(s.shader_index(), 0);
}

#[test]
fn renderer_state_reports_meta_of_active_shader() {
    let mut s = RenderState::new(20);
    s.set_shader_index(16);
    assert_eq!(s.warp_meta(), Some(("interference moiré", "optical")));
    s.set_shader_index(41);
    assert_eq!(s.shader_index(), 1);
    assert_eq!(s.warp_meta(), None);
    let mut empty = RenderState::new(0);
    empty.set_shader_index(7);
    assert_eq!(empty.shader_index(), 0);
}

#[test]
fn toggle_fivecell_twice_restores() {
    let mut s = RenderState::new(3);
    assert!(!s.fivecell_active());
    s.toggle_fivecell();
    assert!(s.fivecell_active());
    s.toggle_fivecell();
    assert!(!s.fivecell_active());
}

#[test]
fn frame_protocol_cycles_slots_and_retries() {
    let mut s = RenderState::new(1);
    assert_eq!(s.begin_frame(false), None);
    assert_eq!(s.begin_frame(true), Some(1));
    assert_eq!(s.image_ready(2, 3), Some(2));
    assert!(!s.frame_closed());
    s.frame_submitted();
    assert!(s.frame_closed());
    assert_eq!(s.begin_frame(true), Some(0));
    // A stale image skips the frame and leaves the fence alone.
    assert_eq!(s.image_ready(3, 3), None);
    assert!(s.frame_closed());
    assert_eq!(s.begin_frame(true), Some(1 % MAX_FRAMES_IN_FLIGHT));
    s.reset_frames();
    assert_eq!(s.begin_frame(true), Some(1));
}

#[test]
fn frame_plan_freezes_then_draws_and_feeds_back() {
    let plain = frame_ops(false);
    assert_eq!(
        plain,
        vec![
            FrameOp::Draw,
            FrameOp::Barrier(FrameImage::Feedback, ImageLayout::ShaderReadOnlyOptimal, ImageLayout::TransferDstOptimal),
            FrameOp::Barrier(FrameImage::Swapchain, ImageLayout::PresentSrc, ImageLayout::TransferSrcOptimal),
            FrameOp::Blit(FrameImage::Swapchain, FrameImage::Feedback),
            FrameOp::Barrier(FrameImage::Feedback, ImageLayout::TransferDstOptimal, ImageLayout::ShaderReadOnlyOptimal),
            FrameOp::Barrier(FrameImage::Swapchain, ImageLayout::TransferSrcOptimal, ImageLayout::PresentSrc),
        ]
    );
    let frozen = frame_ops(true);
    assert_eq!(frozen.len(), 11);
    assert_eq!(frozen[2], FrameOp::Blit(FrameImage::Feedback, FrameImage::Frozen));
    assert_eq!(&frozen[5..], &plain[..]);
}

#[test]
fn spirv_words_are_little_endian() {
    assert_eq!(to_u32s(&[0x03, 0x02, 0x23, 0x07, 0x00, 0x00, 0x01, 0x00]), vec![0x0723_0203, 0x0001_0000]);
    assert_eq!(to_u32s(&[1, 2, 3]), Vec::<u32>::new());
    assert_eq!(to_u32s(&[1, 0, 0, 0, 9, 9]), vec![1]);
    assert_eq!(to_u32s(&[0x01, 0x00, 0x00, 0x00, 0x78, 0x56, 0x34, 0x12, 0xFF]), vec![1, 0x1234_5678]);
}

#[test]
fn spirv_words_round_trip() {
    let words = [0u32, 1, 0x0723_0203, u32::MAX, 0xdead_beef];
    let bytes: Vec<u8> = words.iter().flat_map(|w| w.to_le_bytes()).collect();
    assert_eq!(to_u32s(&bytes), words.to_vec());
}

#[test]
fn memory_type_first_match() {
    let flags = [0b001u32, 0b110, 0b110, 0b111];
    assert_eq!(find_memory_type(&flags, 0b1111, 0b110), Some(1));
    assert_eq!(find_memory_type(&flags, 0b1101, 0b110), Some(2));
    assert_eq!(find_memory_type(&flags, 0b0001, 0b110), None);
    assert_eq!(find_memory_type(&flags, 0b1000, 0b001), Some(3));
    let mut all = [0u32; 32];
    all[31] = 1;
    assert_eq!(find_memory_type(&all, 1 << 31, 1), Some(31));
    assert_eq!(find_memory_type(&[], u32::MAX, 0), None);
}

#[test]
fn queue_family_needs_graphics_and_present() {
    let flags = [0b010u32, 0b001, 0b011];
    assert_eq!(find_queue_family(&flags, &[true, false, true], 0b001), Some(2));
    assert_eq!(find_queue_family(&flags, &[true, true, true], 0b001), Some(1));
    assert_eq!(find_queue_family(&flags, &[true, false, false], 0b001), None);
}

#[test]
fn swapchain_sizing() {
    assert_eq!(swapchain_image_count(2, 0), 3);
    assert_eq!(swapchain_image_count(2, 3), 3);
    assert_eq!(swapchain_image_count(3, 3), 3);
    assert_eq!(swapchain_image_count(u32::MAX, 0), u32::MAX);
    assert_eq!(window_extent(0, 600), (1, 600));
    assert_eq!(swapchain_extent(800, 600, 1, 1), (800, 600));
    assert_eq!(swapchain_extent(u32::MAX, u32::MAX, 0, 720), (1, 720));
    assert_eq!(resize_target(800, 600, (800, 600)), None);
    assert_eq!(resize_target(1920, 0, (800, 600)), Some((1920, 1)));
}

#[test]
fn preferred_format_or_fallback() {
    assert_eq!(choose_preferred(&[44, 50, 37], 50, 44), 50);
    assert_eq!(choose_preferred(&[44, 37], 50, 44), 44);
    assert_eq!(choose_preferred(&[], 1, 2), 2);
}

#[test]
fn layout_transition_masks() {
    assert_eq!(transition_access(ImageLayout::Undefined, ImageLayout::TransferDstOptimal), (Access::Empty, Access::TransferWrite));
    assert_eq!(transition_access(ImageLayout::Undefined, ImageLayout::ShaderReadOnlyOptimal), (Access::Empty, Access::ShaderRead));
    assert_eq!(transition_access(ImageLayout::PresentSrc, ImageLayout::TransferSrcOptimal), (Access::MemoryRead, Access::TransferRead));
    assert_eq!(transition_access(ImageLayout::TransferSrcOptimal, ImageLayout::PresentSrc), (Access::TransferRead, Access::MemoryRead));
    assert_eq!(transition_access(ImageLayout::TransferDstOptimal, ImageLayout::ShaderReadOnlyOptimal), (Access::TransferWrite, Access::ShaderRead));
    assert_eq!(transition_access(ImageLayout::ShaderReadOnlyOptimal, ImageLayout::TransferDstOptimal), (Access::ShaderRead, Access::TransferWrite));
    assert_eq!(transition_access(ImageLayout::ShaderReadOnlyOptimal, ImageLayout::TransferSrcOptimal), (Access::ShaderRead, Access::TransferRead));
    assert_eq!(transition_access(ImageLayout::TransferSrcOptimal, ImageLayout::ShaderReadOnlyOptimal), (Access::TransferRead, Access::ShaderRead));
    assert_eq!(transition_access(ImageLayout::TransferDstOptimal, ImageLayout::TransferSrcOptimal), (Access::Empty, Access::Empty));
    assert_eq!(transition_access(ImageLayout::Other, ImageLayout::PresentSrc), (Access::Empty, Access::Empty));
}

#[test]
fn error_text_is_display() {
    assert_eq!(first_error("device lost"), "device lost".to_string());
    assert_eq!(first_error(42), "42".to_string());
}

#[test]
fn genre_change_logged_once() {
    assert_eq!(Genre::default(), Genre::Inactive);
    let (last, log) = log_genre_change(Genre::Inactive, Genre::Bass, 0);
    assert_eq!((last, log), (2, true));
    let (last, log) = log_genre_change(Genre::Melodic, Genre::Bass, last);
    assert_eq!((last, log), (2, false));
    let (last, log) = log_genre_change(Genre::Bass, Genre::Bass, last);
    assert_eq!((last, log), (2, false));
    let (last, log) = log_genre_change(Genre::Bass, Genre::Ambient, last);
    assert_eq!((last, log), (1, true));
    assert_eq!(log_genre_change(Genre::Ambient, Genre::Inactive, last), (5, true));
    assert_eq!(log_genre_change(Genre::Ambient, Genre::Rhythmic, 0), (3, true));
    assert_eq!(log_genre_change(Genre::Ambient, Genre::Melodic, 0), (4, true));
}

#[test]
fn preset_seed_hash() {
    assert_eq!(preset_hash(0), 0);
    assert_eq!(preset_hash(1), 2654435761u32 >> 8);
    assert_eq!(preset_hash(2), 2654435761u32.wrapping_mul(2) >> 8);
    for idx in [3u32, 1000, u32::MAX] {
        assert!(preset_hash(idx) < 1 << 24);
    }
    assert_eq!(next_preset_index(0), 1);
    assert_eq!(next_preset_index(u32::MAX), 0);
}

#[test]
fn synth_preset_cycles() {
    assert_eq!(next_synth_preset(0, 3), 1);
    assert_eq!(next_synth_preset(2, 3), 0);
    assert_eq!(next_synth_preset(0, 1), 0);
}

#[test]
fn button_map() {
    assert_eq!(button_action(PadButton::South), ButtonAction::NextPreset);
    assert_eq!(button_action(PadButton::East), ButtonAction::NextShader);
    for b in [PadButton::LeftTrigger, PadButton::LeftTrigger2, PadButton::DPadLeft] {
        assert_eq!(button_action(b), ButtonAction::PaletteDown);
    }
    for b in [PadButton::RightTrigger, PadButton::RightTrigger2, PadButton::DPadRight] {
        assert_eq!(button_action(b), ButtonAction::PaletteUp);
    }
    assert_eq!(button_action(PadButton::Start), ButtonAction::ToggleFullscreen);
    assert_eq!(button_action(PadButton::DPadUp), ButtonAction::LiveMixUp);
    assert_eq!(button_action(PadButton::DPadDown), ButtonAction::LiveMixDown);
    assert_eq!(button_action(PadButton::Other), ButtonAction::Ignore);
}

#[test]
fn edges_reset_and_set_per_poll() {
    let mut e = InputEdges::new();
    for b in [PadButton::South, PadButton::DPadLeft, PadButton::South, PadButton::DPadDown] {
        e.apply(button_action(b));
    }
    assert!(e.next_preset_edge && e.live_mix_dec_edge);
    assert!(!e.next_shader_edge && !e.toggle_fullscreen_edge && !e.live_mix_inc_edge);
    e.clear();
    assert_eq!(e, InputEdges::new());
    e.apply(ButtonAction::NextShader);
    e.apply(ButtonAction::ToggleFullscreen);
    e.apply(ButtonAction::LiveMixUp);
    assert!(e.next_shader_edge && e.toggle_fullscreen_edge && e.live_mix_inc_edge);
}

#[test]
fn held_trigger_fires_once() {
    let mut l = TriggerLatch::new();
    assert!(l.update(true));
    assert!(!l.update(true));
    assert!(!l.update(true));
    assert!(!l.update(false));
    assert!(l.update(true));
}

#[test]
fn axis_map() {
    assert_eq!(axis_target(PadAxis::LeftStickX), AxisTarget::WarpX);
    assert_eq!(axis_target(PadAxis::LeftStickY), AxisTarget::WarpY);
    assert_eq!(axis_target(PadAxis::RightStickX), AxisTarget::Rotate);
    assert_eq!(axis_target(PadAxis::RightStickY), AxisTarget::Zoom);
    assert_eq!(axis_target(PadAxis::LeftZ), AxisTarget::LeftTrigger);
    assert_eq!(axis_target(PadAxis::RightZ), AxisTarget::RightTrigger);
    assert_eq!(axis_target(PadAxis::Other), AxisTarget::Ignore);
}

#[test]
fn keyboard_mix_steps() {
    assert_eq!(mix_step(false, true, KeyCode::BracketLeft, NamedKey::Other), MixStep::Lower);
    assert_eq!(mix_step(false, true, KeyCode::Period, NamedKey::Other), MixStep::Raise);
    assert_eq!(mix_step(false, true, KeyCode::ArrowRight, NamedKey::ArrowLeft), MixStep::Raise);
    assert_eq!(mix_step(false, true, KeyCode::Other, NamedKey::ArrowLeft), MixStep::Lower);
    assert_eq!(mix_step(false, true, KeyCode::Other, NamedKey::Other), MixStep::Keep);
    assert_eq!(mix_step(true, true, KeyCode::Comma, NamedKey::Other), MixStep::Keep);
    assert_eq!(mix_step(false, false, KeyCode::BracketRight, NamedKey::Other), MixStep::Keep);
}

#[test]
fn index_parsing_matches_std() {
    for s in ["0", "7", "+42", "007", "18446744073709551615", "", "+", "-1", "4x", " 4", "18446744073709551616", "٣"] {
        assert_eq!(parse_index(s), s.parse::<usize>().ok(), "input {s:?}");
    }
    assert!(same_text("--shader", "--shader"));
    assert!(!same_text("--shader", "--preset"));
    assert!(!same_text("--shade", "--shader"));
}

fn strings(v: &[&str]) -> Vec<String> {
    v.iter().map(|s| s.to_string()).collect()
}

#[test]
fn boot_args_scan() {
    assert_eq!(parse_boot_args(&strings(&[])), BootArgs { shader: None, preset: None });
    assert_eq!(
        parse_boot_args(&strings(&["--shader", "3", "--preset", "5"])),
        BootArgs { shader: Some(3), preset: Some(5) }
    );
    assert_eq!(
        parse_boot_args(&strings(&["--preset", "x", "--shader"])),
        BootArgs { shader: None, preset: None }
    );
    assert_eq!(
        parse_boot_args(&strings(&["junk", "--shader", "2", "--shader", "9", "7"])),
        BootArgs { shader: Some(9), preset: None }
    );
    assert_eq!(
        parse_boot_args(&strings(&["--shader", "--preset", "4"])),
        BootArgs { shader: None, preset: None }
    );
}

#[test]
fn ring_keeps_newest_samples() {
    let mut ring: VecDeque<i32> = (0..10).collect();
    trim_ring(&mut ring, 4);
    assert_eq!(ring, VecDeque::from(vec![6, 7, 8, 9]));
    trim_ring(&mut ring, 8);
    assert_eq!(ring.len(), 4);
    push_block(&mut ring, &[10, 11, 12], 5);
    assert_eq!(ring, VecDeque::from(vec![8, 9, 10, 11, 12]));
}

#[test]
fn window_is_right_aligned_and_padded() {
    let ring: VecDeque<i32> = VecDeque::from(vec![1, 2, 3]);
    assert_eq!(window_from_ring(&ring, 0, 5), vec![0, 0, 1, 2, 3]);
    assert_eq!(window_from_ring(&ring, 0, 2), vec![2, 3]);
    assert_eq!(window_from_ring(&VecDeque::<i32>::new(), 9, 3), vec![9, 9, 9]);
    assert_eq!(window_from_ring(&ring, 0, 0), Vec::<i32>::new());
}

#[test]
fn peak_reports_are_rate_limited() {
    assert!(peak_log_due(3000, 0));
    assert!(!peak_log_due(2999, 0));
    assert!(peak_log_due(10_000, 7_000));
    assert!(!peak_log_due(5, 10));
}

#[test]
fn frame_count_ticks() {
    assert_eq!(next_frame_count(0), 1);
    assert_eq!(next_frame_count(u64::MAX - 1), u64::MAX);
}
