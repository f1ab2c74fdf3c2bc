use kdam::std_bar::{Bar, MonitorStep};
use kdam::styles::{Animation, Output, SpinnerFrames};

const SECOND: u64 = 1_000_000_000;
const MILLI: u64 = 1_000_000;

fn eager(total: u64) -> Bar {
    let mut pb = Bar::new(total);
    pb.mininterval = 0;
    pb
}

#[test]
fn new_bar_has_the_defaults() {
    let pb = Bar::new(100);
    assert_eq!(pb.total, 100);
    assert_eq!(pb.desc, "");
    assert!(pb.leave);
    assert!(!pb.file);
    assert_eq!(pb.ncols, 10);
    assert_eq!(pb.mininterval, 100 * MILLI);
    assert_eq!(pb.miniters, 1);
    assert!(!pb.dynamic_miniters);
    assert!(!pb.ascii);
    assert!(!pb.disable);
    assert_eq!(pb.unit, "it");
    assert!(!pb.unit_scale);
    assert!(!pb.dynamic_ncols);
    assert_eq!(pb.initial, 0);
    assert_eq!(pb.position, 0);
    assert_eq!(pb.postfix, "");
    assert_eq!(pb.unit_divisor, 1000);
    assert_eq!(pb.colour, "default");
    assert_eq!(pb.delay, 0);
    assert_eq!(pb.fill, " ");
    assert_eq!(pb.animation, Animation::TqdmAscii);
    assert_eq!(pb.output, Output::Stderr);
    assert!(!pb.max_fps);
    assert_eq!(pb.n, 0);
    assert!(!pb.internal.started);
    assert_eq!(pb.internal.user_ncols, -1);
    assert_eq!(pb.internal.charset_len, 8);
    assert_eq!(
        pb.internal.charset,
        "\u{258F}\u{258E}\u{258D}\u{258C}\u{258B}\u{258A}\u{2589}\u{2588}"
    );
    assert_eq!(pb.internal.spinner.frames, SpinnerFrames::Classic);
}

#[test]
fn default_bar_has_no_total() {
    let pb = Bar::default();
    assert_eq!(pb.total, 0);
    assert_eq!(pb.unit, "it");
    assert_eq!(pb.internal.bar_length, 0);
}

#[test]
fn first_frame_of_a_bar() {
    let mut pb = eager(10);
    let out = pb.update(1, 5 * SECOND, 0);
    assert_eq!(
        out.unwrap(),
        "\r 10%|\u{2588}\u{258E}        | 1/10 [00:00<00:00, ?it/s]"
    );
    assert_eq!(pb.n, 1);
    assert!(pb.internal.started);
    assert_eq!(pb.internal.timer, 5 * SECOND);
    assert_eq!(pb.internal.elapsed_time, 0);
    assert_eq!(pb.ncols, 10);
    assert_eq!(pb.internal.user_ncols, 10);
    assert_eq!(pb.internal.bar_length, 42);
}

#[test]
fn first_advance_waits_for_the_minimum_interval() {
    let mut pb = Bar::new(10);
    assert!(pb.update(1, 5 * SECOND, 0).is_none());
    assert_eq!(pb.n, 1);
    assert!(pb.internal.started);
    assert_eq!(pb.internal.bar_length, 0);
}

#[test]
fn second_frame_shows_rate_and_time_left() {
    let mut pb = eager(10);
    pb.update(1, 0, 0);
    let out = pb.update(1, 2 * SECOND, 0);
    assert_eq!(
        out.unwrap(),
        "\r 20%|\u{2588}\u{2588}\u{258E}       | 2/10 [00:02<00:08, 1.00it/s]"
    );
    assert_eq!(pb.internal.elapsed_time, 2 * SECOND);
    assert_eq!(pb.internal.its_per, 1);
}

#[test]
fn ten_advances_write_ten_frames() {
    let mut pb = eager(10);
    let mut frames = Vec::new();
    for i in 0..10u64 {
        if let Some(frame) = pb.update(1, i * SECOND, 0) {
            frames.push(frame);
        }
    }
    assert_eq!(frames.len(), 10);
    let last = &frames[9];
    assert!(last.contains("10/10"));
    assert!(last.contains("100%"));
    assert_eq!(
        last,
        "\r100%|\u{2588}\u{2588}\u{2588}\u{2588}\u{2588}\u{2588}\u{2588}\u{2588}\u{2588}\u{2588}| 10/10 [00:09<00:00, 1.11it/s]"
    );
    assert!(pb.completed());
}

#[test]
fn count_above_the_total_shows_the_total() {
    let mut pb = eager(10);
    pb.update(9, 0, 0);
    let out = pb.update(5, 7 * SECOND, 0).unwrap();
    assert_eq!(pb.n, 14);
    assert_eq!(
        out,
        "\r100%|\u{2588}\u{2588}\u{2588}\u{2588}\u{2588}\u{2588}\u{2588}\u{2588}\u{2588}\u{2588}| 10/10 [00:07<00:00, 1.43it/s]"
    );
}

#[test]
fn bar_without_total_spins() {
    let mut pb = eager(0);
    let glyphs = ["\\", "|", "/", "-", "\\"];
    for i in 0..5u64 {
        let frame = pb.update(1, i * SECOND, 0).unwrap();
        assert!(frame.starts_with(&format!("\r{} ", glyphs[i as usize])));
        assert!(!frame.contains('%'));
        assert!(!frame.contains('<'));
    }
}

#[test]
fn frames_of_a_bar_without_total() {
    let mut pb = eager(0);
    assert_eq!(pb.update(1, 0, 80).unwrap(), "\r\\ 1 [00:00, ?it/s]");
    assert_eq!(pb.update(1, SECOND, 80).unwrap(), "\r| 2 [00:01, 2.00it/s]");
    assert_eq!(pb.update(5, 2 * SECOND, 80).unwrap(), "\r/ 7 [00:02, 3.50it/s]");
    assert_eq!(pb.internal.bar_length, 21);
    assert_eq!(pb.internal.its_per, 3);
}

#[test]
fn bar_without_total_shows_its_description() {
    let mut pb = eager(0);
    pb.set_description("files".to_string());
    pb.set_postfix("ok".to_string());
    pb.unit = "B".to_string();
    assert_eq!(pb.update(3, 0, 0).unwrap(), "\r\\ files: 3 [00:00, ?B/s, ok]");
}

#[test]
fn fira_code_bar_without_total_uses_its_own_spinner() {
    let mut pb = eager(0);
    pb.animation = Animation::FiraCode;
    assert_eq!(pb.update(1, 0, 0).unwrap(), "\r\u{EE06} 1 [00:00, ?it/s]");
    assert_eq!(pb.update(1, SECOND, 0).unwrap(), "\r\u{EE07} 2 [00:01, 2.00it/s]");
    let mut last = String::new();
    for i in 2..7u64 {
        last = pb.update(0, i * SECOND, 0).unwrap();
    }
    assert!(last.starts_with("\r\u{EE06} "));
}

#[test]
fn reset_restarts_clock_and_counter() {
    let mut pb = eager(10);
    for i in 0..10u64 {
        pb.update(1, i * SECOND, 0);
    }
    assert!(pb.completed());
    pb.reset(Some(50));
    assert!(!pb.internal.started);
    assert_eq!(pb.total, 50);
    let out = pb.update(1, 100 * SECOND, 0).unwrap();
    assert_eq!(pb.n, 1);
    assert_eq!(pb.internal.timer, 100 * SECOND);
    assert_eq!(pb.internal.elapsed_time, 0);
    assert_eq!(out, "\r  2%|\u{258D}         | 1/50 [00:00<00:00, ?it/s]");
}

#[test]
fn reset_resumes_at_the_initial_value() {
    let mut pb = eager(10);
    pb.initial = 4;
    pb.update(6, 0, 0);
    assert_eq!(pb.n, 10);
    pb.reset(None);
    assert_eq!(pb.total, 10);
    pb.update(1, 30 * SECOND, 0);
    assert_eq!(pb.n, 5);
}

#[test]
fn advances_close_together_write_one_frame() {
    let mut pb = Bar::new(100);
    assert!(pb.update(1, 0, 0).is_none());
    assert!(pb.update(1, 50 * MILLI, 0).is_none());
    assert!(pb.update(1, 99 * MILLI, 0).is_none());
    assert_eq!(pb.n, 3);
    assert!(pb.update(1, 100 * MILLI, 0).is_some());
    assert!(pb.update(1, 150 * MILLI, 0).is_none());
    assert!(pb.update(1, 199 * MILLI, 0).is_none());
    assert!(pb.update(1, 200 * MILLI, 0).is_some());
    assert!(pb.update(1, 250 * MILLI, 0).is_none());
    assert_eq!(pb.n, 8);
}

#[test]
fn reaching_the_total_writes_at_once() {
    let mut pb = Bar::new(2);
    assert!(pb.update(0, 0, 0).is_none());
    assert!(pb.update(1, 100 * MILLI, 0).is_some());
    let out = pb.update(1, 110 * MILLI, 0).unwrap();
    assert!(out.contains("2/2"));
    assert!(out.contains("100%"));
}

#[test]
fn iteration_interval_holds_frames_back() {
    let mut pb = eager(100);
    pb.miniters = 5;
    let mut written = Vec::new();
    for i in 1..=12u64 {
        if pb.update(1, i * SECOND, 0).is_some() {
            written.push(i);
        }
    }
    assert_eq!(written, vec![5, 10]);
}

#[test]
fn delay_holds_frames_back() {
    let mut pb = eager(100);
    pb.delay = 3 * SECOND;
    assert!(pb.update(1, 0, 0).is_none());
    assert!(pb.update(1, 2 * SECOND, 0).is_none());
    assert!(pb.update(1, 3 * SECOND, 0).is_some());
}

#[test]
fn dynamic_iteration_interval_grows_and_resets() {
    let mut pb = Bar::new(100);
    pb.dynamic_miniters = true;
    assert!(pb.update(1, 0, 0).is_none());
    assert_eq!(pb.miniters, 2);
    assert!(pb.update(2, 10 * MILLI, 0).is_none());
    assert_eq!(pb.miniters, 4);
    assert!(pb.update(1, 20 * MILLI, 0).is_none());
    assert_eq!(pb.miniters, 5);
    assert!(pb.update(1, 200 * MILLI, 0).is_some());
    assert_eq!(pb.n, 5);
    assert_eq!(pb.miniters, 0);
    assert!(pb.update(3, 210 * MILLI, 0).is_none());
    assert_eq!(pb.miniters, 3);
    assert!(pb.update(3, 400 * MILLI, 0).is_none());
    assert_eq!(pb.miniters, 3);
    assert!(pb.update(1, 410 * MILLI, 0).is_some());
    assert_eq!(pb.n, 12);
}

#[test]
fn disabled_bar_counts_without_frames() {
    let mut pb = eager(10);
    pb.disable = true;
    assert!(pb.update(3, 0, 0).is_none());
    assert!(pb.update(7, SECOND, 0).is_none());
    assert_eq!(pb.n, 10);
}

#[test]
fn every_call_renders_at_full_rate() {
    let mut pb = Bar::new(100);
    pb.max_fps = true;
    assert!(pb.update(1, 0, 0).is_some());
    assert!(pb.update(1, 1, 0).is_some());
    assert!(pb.update(1, 2, 0).is_some());
    assert!(pb.internal.force_refresh);
}

#[test]
fn refresh_writes_whatever_the_gates_say() {
    let mut pb = Bar::new(100);
    pb.update(1, 0, 0);
    assert!(pb.update(1, MILLI, 0).is_none());
    let out = pb.refresh(2 * MILLI, 0).unwrap();
    assert!(out.contains(" 2/100 "));
    assert_eq!(pb.n, 2);
    assert!(!pb.internal.force_refresh);
}

#[test]
fn percentage_is_padded_to_three_places() {
    let pb = Bar::new(200);
    assert_eq!(pb.render_lbar(0), (0, "  0%".to_string()));
    assert_eq!(pb.render_lbar(19), (19, "  9%".to_string()));
    assert_eq!(pb.render_lbar(20), (20, " 10%".to_string()));
    assert_eq!(pb.render_lbar(199), (199, " 99%".to_string()));
    assert_eq!(pb.render_lbar(200), (200, "100%".to_string()));
    assert_eq!(pb.render_lbar(500), (200, "100%".to_string()));
}

#[test]
fn description_stands_before_the_percentage() {
    let mut pb = Bar::new(4);
    pb.set_description("copy".to_string());
    assert_eq!(pb.render_lbar(1).1, "copy:  25%");
    assert_eq!(pb.render_lbar(4).1, "copy: 100%");
}

#[test]
fn postfix_follows_a_comma() {
    let mut pb = eager(4);
    pb.set_postfix("loss=0.5".to_string());
    assert_eq!(pb.postfix, ", loss=0.5");
    let out = pb.update(1, 0, 0).unwrap();
    assert!(out.ends_with(" 1/4 [00:00<00:00, ?it/s, loss=0.5]"));
}

#[test]
fn right_segment_with_scaled_counts() {
    let mut pb = eager(2000);
    pb.unit_scale = true;
    pb.unit = "B".to_string();
    pb.update(0, 0, 0);
    let out = pb.render_rbar(1500, SECOND);
    assert_eq!(out, " 1.50k/2.00k [00:01<00:00, 1.50kB/s]");
    assert_eq!(pb.internal.its_per, 1500);
    assert_eq!(pb.internal.elapsed_time, SECOND);
}

#[test]
fn right_segment_before_the_first_iteration() {
    let mut pb = eager(10);
    pb.update(0, 0, 0);
    assert_eq!(pb.render_rbar(0, 3 * SECOND), " 0/10 [00:03<00:00, ?it/s]");
}

#[test]
fn time_left_follows_the_rate() {
    let mut pb = eager(100);
    pb.update(0, 0, 0);
    assert_eq!(pb.render_rbar(25, 10 * SECOND), " 25/100 [00:10<00:30, 2.50it/s]");
    assert_eq!(pb.render_rbar(1, 3700 * SECOND), " 1/100 [01:01:40<101:45:00, 0.00it/s]");
}

#[test]
fn meter_in_eighths() {
    let mut pb = eager(80);
    pb.ncols = 5;
    pb.update(0, 0, 0);
    assert_eq!(pb.ncols, 5);
    assert_eq!(pb.render_mbar(0), "|\u{258E}    |");
    assert_eq!(pb.render_mbar(16), "|\u{2588}\u{258E}   |");
    assert_eq!(pb.render_mbar(25), "|\u{2588}\u{258B}   |");
    assert_eq!(pb.render_mbar(79), "|\u{2588}\u{2588}\u{2588}\u{2588}\u{2588}|");
    assert_eq!(pb.render_mbar(80), "|\u{2588}\u{2588}\u{2588}\u{2588}\u{2588}|");
}

#[test]
fn meter_in_ascii() {
    let mut pb = eager(10);
    pb.ascii = true;
    let out = pb.update(1, 0, 0).unwrap();
    assert_eq!(out, "\r 10%|#2        | 1/10 [00:00<00:00, ?it/s]");
    assert_eq!(pb.internal.charset, "123456789#");
    assert_eq!(pb.internal.charset_len, 10);
    assert_eq!(pb.render_mbar(5), "|#####2    |");
    assert_eq!(pb.render_mbar(10), "|##########|");
}

#[test]
fn meter_filling_up() {
    let mut pb = eager(10);
    pb.animation = Animation::FillUp;
    let out = pb.update(3, 0, 0).unwrap();
    assert_eq!(
        out,
        "\r 30%|\u{2588}\u{2588}\u{2588}\u{2582}      | 3/10 [00:00<00:00, ?it/s]"
    );
    assert_eq!(pb.animation, Animation::TqdmAscii);
}

#[test]
fn classic_meter() {
    let mut pb = eager(10);
    pb.animation = Animation::Classic;
    let out = pb.update(3, 0, 0).unwrap();
    assert_eq!(out, "\r 30%[###.......] 3/10 [00:00<00:00, ?it/s]");
    assert_eq!(pb.render_mbar(10), "[##########]");
    assert_eq!(pb.render_mbar(0), "[..........]");
}

#[test]
fn arrow_meter() {
    let mut pb = eager(10);
    pb.animation = Animation::Arrow;
    let out = pb.update(3, 0, 0).unwrap();
    assert_eq!(out, "\r 30%[===>      ] 3/10 [00:00<00:00, ?it/s]");
    assert_eq!(pb.render_mbar(0), "[>         ]");
    assert_eq!(pb.render_mbar(8), "[========> ]");
    assert_eq!(pb.render_mbar(1), "[=>        ]");
    assert_eq!(pb.render_mbar(9), "[=========>]");
    assert_eq!(pb.render_mbar(10), "[==========]");
}

#[test]
fn fira_code_meter() {
    let mut pb = eager(4);
    pb.animation = Animation::FiraCode;
    pb.ncols = 4;
    pb.update(1, 0, 0);
    assert_eq!(
        pb.render_mbar(1),
        "\u{EE03}\u{EE04}\u{EE01}\u{EE01}\u{EE01}\u{EE02}"
    );
    assert_eq!(
        pb.render_mbar(4),
        "\u{EE03}\u{EE04}\u{EE04}\u{EE04}\u{EE04}\u{EE05}"
    );
}

#[test]
fn custom_charset() {
    let mut pb = eager(4);
    pb.ncols = 4;
    pb.set_charset(&[" ", ".", "o", "O"]);
    assert_eq!(pb.internal.charset, " .oO");
    assert_eq!(pb.internal.charset_len, 4);
    assert_eq!(pb.animation, Animation::TqdmAscii);
    pb.internal.started = true;
    assert_eq!(pb.render_mbar(0), "|.   |");
    assert_eq!(pb.render_mbar(1), "|O.  |");
    assert_eq!(pb.render_mbar(2), "|OO. |");
    assert_eq!(pb.render_mbar(4), "|OOOO|");
}

#[test]
fn coloured_meter() {
    let mut pb = eager(10);
    pb.set_colour("red");
    let out = pb.update(10, 0, 0).unwrap();
    assert_eq!(
        out,
        "\r100%|\x1b[31m\u{2588}\u{2588}\u{2588}\u{2588}\u{2588}\u{2588}\u{2588}\u{2588}\u{2588}\u{2588}\x1b[0m| 10/10 [00:00<00:00, ?it/s]"
    );
}

#[test]
fn coloured_bracket_families() {
    let mut pb = eager(2);
    pb.ncols = 2;
    pb.animation = Animation::Classic;
    pb.colour = "#00ff00".to_string();
    pb.update(1, 0, 0);
    assert_eq!(pb.colour, "\x1b[38;2;0;255;0m");
    assert_eq!(pb.render_mbar(1), "[\x1b[38;2;0;255;0m#.\x1b[0m]");
    pb.animation = Animation::FiraCode;
    assert_eq!(pb.render_mbar(2), "\u{EE03}\x1b[38;2;0;255;0m##\x1b[0m\u{EE05}");
}

#[test]
fn fixed_width_is_kept() {
    let mut pb = eager(10);
    pb.ncols = 20;
    let out = pb.update(5, 0, 120).unwrap();
    assert_eq!(
        out,
        "\r 50%|\u{2588}\u{2588}\u{2588}\u{2588}\u{2588}\u{2588}\u{2588}\u{2588}\u{2588}\u{2588}\u{258E}         | 5/10 [00:00<00:00, ?it/s]"
    );
    assert_eq!(pb.internal.user_ncols, 20);
    assert_eq!(pb.ncols, 20);
}

#[test]
fn width_of_zero_leaves_the_meter_out() {
    let mut pb = eager(10);
    pb.ncols = 0;
    let out = pb.update(5, 0, 120).unwrap();
    assert_eq!(out, "\r 50% 5/10 [00:00<00:00, ?it/s]");
    let (lbar, mbar, rbar) = pb.render(5, SECOND, 120);
    assert_eq!(lbar, " 50%");
    assert_eq!(mbar, "");
    assert_eq!(rbar, " 5/10 [00:01<00:01, 5.00it/s]");
}

#[test]
fn meter_fills_the_terminal() {
    let mut pb = eager(10);
    let out = pb.update(5, 0, 60).unwrap();
    assert_eq!(pb.ncols, 26);
    assert_eq!(pb.internal.user_ncols, -1);
    assert_eq!(out.chars().count(), 59);
    assert_eq!(pb.internal.bar_length, 58);
}

#[test]
fn narrow_terminal_keeps_the_width() {
    let mut pb = eager(10);
    pb.update(5, 0, 20);
    assert_eq!(pb.ncols, 10);
    assert_eq!(pb.internal.user_ncols, -1);
}

#[test]
fn missing_terminal_falls_back_to_ten() {
    let mut pb = eager(10);
    pb.dynamic_ncols = true;
    pb.update(5, 0, 0);
    assert_eq!(pb.ncols, 10);
    assert_eq!(pb.internal.user_ncols, -1);
    pb.update(1, SECOND, 50);
    assert_eq!(pb.ncols, 13);
}

#[test]
fn set_ncols_leaves_a_frame_that_fits() {
    let mut pb = eager(10);
    pb.internal.bar_length = 100;
    pb.set_ncols(30, 80);
    assert_eq!(pb.ncols, 10);
    pb.internal.bar_length = 41;
    pb.set_ncols(30, 80);
    assert_eq!(pb.ncols, 47);
}

#[test]
fn fixed_width_wins_over_the_terminal() {
    let mut pb = eager(10);
    pb.internal.user_ncols = 20;
    pb.ncols = 5;
    pb.internal.bar_length = 100;
    pb.set_ncols(30, 80);
    assert_eq!(pb.ncols, 20);
    pb.dynamic_ncols = true;
    pb.set_ncols(30, 0);
    assert_eq!(pb.ncols, 20);
    assert_eq!(pb.internal.user_ncols, 20);
}

#[test]
fn finished_bar_that_does_not_stay_is_blanked() {
    let mut pb = eager(2);
    pb.leave = false;
    pb.update(1, 0, 0);
    assert_eq!(pb.internal.bar_length, 41);
    let out = pb.update(1, SECOND, 0).unwrap();
    assert_eq!(out, format!("\r{}\r", " ".repeat(41)));
    let (lbar, mbar, rbar) = pb.render(2, SECOND, 0);
    assert_eq!(lbar.trim(), "");
    assert_eq!(mbar, "");
    assert_eq!(rbar, "\r");
}

#[test]
fn frame_on_the_cursor_line() {
    let pb = Bar::new(10);
    assert_eq!(pb.write_at("frame".to_string()), "\rframe");
}

#[test]
fn frame_on_a_line_below() {
    let mut pb = Bar::new(10);
    pb.position = 3;
    assert_eq!(pb.write_at("frame".to_string()), "\n\n\nframe\x1b[3A");
    pb.position = 12;
    assert_eq!(
        pb.write_at("x".to_string()),
        "\n\n\n\n\n\n\n\n\n\n\n\nx\x1b[12A"
    );
}

#[test]
fn frame_for_a_file() {
    let mut pb = eager(10);
    pb.file = true;
    pb.position = 3;
    assert_eq!(pb.write_at("frame".to_string()), "frame\n");
    let out = pb.update(1, 0, 0).unwrap();
    assert_eq!(
        out,
        " 10%|\u{2588}\u{258E}        | 1/10 [00:00<00:00, ?it/s]\n"
    );
    assert_eq!(pb.clear(80), None);
}

fn rows_moved(bytes: &str) -> i64 {
    let mut rows = 0i64;
    let mut chars = bytes.chars().peekable();
    while let Some(c) = chars.next() {
        if c == '\n' {
            rows += 1;
        } else if c == '\x1b' && chars.peek() == Some(&'[') {
            chars.next();
            let mut value = 0i64;
            while let Some(&d) = chars.peek() {
                if d.is_ascii_digit() {
                    value = value * 10 + d.to_digit(10).unwrap() as i64;
                    chars.next();
                } else if d == ';' {
                    value = 0;
                    chars.next();
                } else {
                    break;
                }
            }
            if chars.next() == Some('A') {
                rows -= value;
            }
        }
    }
    rows
}

#[test]
fn stacked_bars_keep_to_their_rows() {
    let mut top = eager(10);
    let mut low = eager(10);
    low.position = 3;
    low.set_colour("#a485ca");
    let mut rows = 0i64;
    for i in 0..10u64 {
        let a = top.update(1, i * SECOND, 80).unwrap();
        assert_eq!(rows_moved(&a), 0);
        assert!(!a.contains('\n'));
        rows += rows_moved(&a);
        let b = low.update(1, i * SECOND, 80).unwrap();
        assert!(b.starts_with("\n\n\n"));
        assert!(b.ends_with("\x1b[3A"));
        assert_eq!(b.matches('\n').count(), 3);
        rows += rows_moved(&b);
        assert_eq!(rows, 0);
    }
}

#[test]
fn clear_blanks_the_last_frame() {
    let mut pb = eager(10);
    assert_eq!(pb.clear(7).unwrap(), "\r       \r");
    pb.update(1, 0, 0);
    assert_eq!(pb.clear(7).unwrap(), format!("\r{}\r", " ".repeat(42)));
}

#[test]
fn message_is_written_between_clear_and_redraw() {
    let mut pb = eager(10);
    pb.update(1, 0, 0);
    let out = pb.write("hello".to_string(), SECOND, 0);
    assert_eq!(out.clear.unwrap(), format!("\r{}\r", " ".repeat(42)));
    assert_eq!(out.message, "hello\n");
    assert_eq!(
        out.redraw.unwrap(),
        "\r 10%|\u{2588}\u{258E}        | 1/10 [00:01<00:09, 1.00it/s]"
    );
}

#[test]
fn message_without_redraw_when_the_bar_does_not_stay() {
    let mut pb = eager(10);
    pb.leave = false;
    pb.update(1, 0, 0);
    let out = pb.write("hello".to_string(), SECOND, 0);
    assert_eq!(out.message, "hello\n");
    assert!(out.redraw.is_none());
    assert!(pb.resume(2 * SECOND, 0).is_none());
}

#[test]
fn prompt_is_written_after_clear() {
    let mut pb = eager(10);
    pb.update(1, 0, 0);
    let out = pb.input("Break Loop [y/n]: ", 0);
    assert_eq!(out.clear.unwrap(), format!("\r{}\r", " ".repeat(42)));
    assert_eq!(out.message, "Break Loop [y/n]: ");
    assert!(out.redraw.is_none());
    let redraw = pb.resume(SECOND, 0).unwrap();
    assert!(redraw.contains(" 1/10 "));
}

#[test]
fn set_position_moves_the_counter() {
    let mut pb = eager(10);
    pb.update(1, 0, 0);
    let out = pb.set_position(7, SECOND, 0).unwrap();
    assert_eq!(pb.n, 7);
    assert!(out.contains(" 70%"));
    assert!(out.contains(" 7/10 "));
}

#[test]
fn set_position_on_a_bar_not_started_keeps_the_position() {
    let mut pb = eager(10);
    pb.initial = 2;
    let out = pb.set_position(7, 5 * SECOND, 0).unwrap();
    assert_eq!(pb.n, 7);
    assert!(pb.internal.started);
    assert_eq!(pb.internal.timer, 5 * SECOND);
    assert_eq!(
        out,
        "\r 70%|\u{2588}\u{2588}\u{2588}\u{2588}\u{2588}\u{2588}\u{2588}\u{258E}  | 7/10 [00:00<00:00, ?it/s]"
    );
}

#[test]
fn set_position_after_a_reset_keeps_the_position() {
    let mut pb = eager(10);
    pb.update(10, 0, 0);
    pb.reset(Some(20));
    pb.set_position(4, 9 * SECOND, 0);
    assert_eq!(pb.n, 4);
    assert_eq!(pb.total, 20);
    assert_eq!(pb.internal.timer, 9 * SECOND);
}

#[test]
fn set_position_may_move_the_counter_back() {
    let mut pb = eager(10);
    pb.update(8, 0, 0);
    pb.set_position(3, SECOND, 0);
    assert_eq!(pb.n, 3);
}

#[test]
fn set_position_is_throttled_like_an_advance() {
    let mut pb = Bar::new(10);
    assert!(pb.set_position(3, 0, 0).is_none());
    assert_eq!(pb.n, 3);
    assert!(pb.set_position(4, 50 * MILLI, 0).is_none());
    assert!(pb.set_position(5, 100 * MILLI, 0).is_some());
    assert!(pb.set_position(10, 110 * MILLI, 0).is_some());
}

#[test]
fn glyph_run_is_as_wide_as_the_meter() {
    for animation in [
        Animation::Arrow,
        Animation::Classic,
        Animation::FillUp,
        Animation::FiraCode,
        Animation::Tqdm,
        Animation::TqdmAscii,
    ] {
        let mut pb = eager(13);
        pb.animation = animation;
        pb.ncols = 7;
        pb.update(0, 0, 0);
        for done in 0..=13u64 {
            let meter = pb.render_mbar(done);
            assert_eq!(meter.chars().count(), 7 + 2, "{:?} at {}", animation, done);
        }
    }
}

#[test]
fn monitor_refreshes_a_bar_that_stands_still() {
    let mut pb = Bar::new(10);
    pb.update(3, 0, 0);
    match pb.monitor(0, MILLI, 0) {
        MonitorStep::Moved(n) => assert_eq!(n, 3),
        other => panic!("{:?}", other),
    }
    match pb.monitor(3, 2 * MILLI, 0) {
        MonitorStep::Refreshed(out) => assert!(out.unwrap().contains(" 3/10 ")),
        other => panic!("{:?}", other),
    }
    pb.update(7, 3 * MILLI, 0);
    assert!(matches!(pb.monitor(3, 4 * MILLI, 0), MonitorStep::Finished));
    assert!(matches!(pb.monitor(10, 4 * MILLI, 0), MonitorStep::Finished));
}

#[test]
fn clock_running_backwards_counts_as_no_time() {
    let mut pb = eager(10);
    pb.update(1, 10 * SECOND, 0);
    let out = pb.update(1, 5 * SECOND, 0).unwrap();
    assert!(out.contains("[00:00<00:00, ?it/s]"));
}

#[test]
fn bar_is_at_hand_from_the_crate_root() {
    let mut pb = kdam::Bar::new(4);
    pb.animation = kdam::Animation::Classic;
    pb.output = kdam::Output::Stdout;
    pb.mininterval = 0;
    assert_eq!(
        pb.update(2, 0, 0).unwrap(),
        "\r 50%[#####.....] 2/4 [00:00<00:00, ?it/s]"
    );
}

#[test]
fn well_formed_bar_has_glyphs_for_its_family() {
    let mut pb = Bar::new(10);
    assert!(pb.well_formed());
    pb.internal.charset = "#".to_string();
    assert!(!pb.well_formed());
    pb.animation = Animation::Classic;
    assert!(pb.well_formed());
    pb.animation = Animation::Tqdm;
    pb.internal.charset = "ab".to_string();
    pb.internal.charset_len = 2;
    assert!(pb.well_formed());
    pb.internal.charset_len = 3;
    assert!(!pb.well_formed());
    pb.internal.charset_len = 1;
    assert!(!pb.well_formed());
}

#[test]
fn counter_takes_what_fits() {
    let mut pb = eager(10);
    assert!(pb.can_update(u64::MAX, 0));
    pb.initial = 1;
    assert!(!pb.can_update(u64::MAX, 0));
    assert!(pb.can_update(u64::MAX - 1, 0));
    pb.update(5, 0, 0);
    assert_eq!(pb.n, 6);
    assert!(pb.can_update(u64::MAX - 6, SECOND));
    assert!(!pb.can_update(u64::MAX - 5, SECOND));
}

#[test]
fn iteration_interval_takes_what_fits() {
    let mut pb = Bar::new(10);
    pb.dynamic_miniters = true;
    pb.miniters = u64::MAX;
    assert!(pb.can_update(0, 0));
    assert!(!pb.can_update(1, 0));
    pb.disable = true;
    assert!(pb.can_update(1, 0));
    pb.disable = false;
    pb.mininterval = 0;
    assert!(pb.can_update(1, 0));
}

#[test]
fn try_update_leaves_a_full_counter_alone() {
    let mut pb = eager(10);
    assert!(pb.try_update(u64::MAX, 0, 0).unwrap().is_some());
    assert_eq!(pb.n, u64::MAX);
    assert!(pb.try_update(1, SECOND, 0).is_none());
    assert_eq!(pb.n, u64::MAX);
    assert_eq!(pb.internal.elapsed_time, 0);
    assert!(pb.try_update(0, SECOND, 0).unwrap().is_some());
    assert_eq!(pb.internal.elapsed_time, SECOND);
}

#[test]
fn reaching_the_total_overrides_every_gate() {
    let mut pb = Bar::new(5);
    pb.miniters = 1000;
    pb.delay = 3600 * SECOND;
    pb.mininterval = 3600 * SECOND;
    pb.set_description("load".to_string());
    assert!(pb.update(4, 0, 0).is_none());
    let out = pb.update(1, 1, 0).unwrap();
    assert!(out.starts_with("\rload: 100%|"));
    assert!(out.contains("| 5/5 ["));
    assert!(pb.update(1, 2, 0).is_none());
}

#[test]
fn frame_after_a_reset_shows_no_time_elapsed() {
    let mut pb = eager(10);
    pb.update(5, 0, 0);
    let before = pb.update(5, 90 * SECOND, 0).unwrap();
    assert!(before.contains("[01:30<00:00, "));
    pb.reset(Some(50));
    let first = pb.update(2, 200 * SECOND, 0).unwrap();
    assert!(first.contains(" 2/50 [00:00<00:00, ?it/s]"));
    let later = pb.update(3, 210 * SECOND, 0).unwrap();
    assert!(later.contains(" 5/50 [00:10<01:30, 0.50it/s]"));
}
