use omarchy_hotspot::doctor::{check_dnsmasq, check_network_manager};
use omarchy_hotspot::expert::{log_window, output_lines, ExpertOutput, OutputLine};

fn log(n: usize) -> ExpertOutput {
    ExpertOutput::Log((0..n).map(|i| if i == 0 { "── boot".to_string() } else { format!("line {i}") }).collect())
}

fn texts(v: &[OutputLine]) -> Vec<String> {
    v.iter()
        .map(|l| match l {
            OutputLine::Loading(c) => format!("{c} loading"),
            OutputLine::Log { text, heading } => format!("{}{text}", if *heading { "#" } else { "" }),
            OutputLine::Check { title, detail, .. } => format!("{title} — {detail}"),
            OutputLine::Advice(t) => t.clone(),
            OutputLine::Verdict(ok) => format!("verdict {ok}"),
        })
        .collect()
}

#[test]
fn log_shows_its_end_and_scrolls_back() {
    assert_eq!(log_window(10, 0, 4), (6, 10));
    assert_eq!(log_window(10, 3, 4), (3, 7));
    assert_eq!(log_window(10, 99, 4), (0, 4));
    assert_eq!(log_window(3, 5, 4), (0, 3));
    let v = output_lines(true, &log(10), 0, 3, 80, 0);
    assert_eq!(texts(&v), ["line 7", "line 8", "line 9"]);
    let v = output_lines(true, &log(10), 99, 2, 3, 0);
    assert_eq!(texts(&v), ["#── ", "lin"]);
}

#[test]
fn output_needs_the_expert_section_and_rows() {
    assert!(output_lines(false, &log(5), 0, 3, 80, 0).is_empty());
    assert!(output_lines(true, &log(5), 0, 0, 80, 0).is_empty());
    assert!(output_lines(true, &ExpertOutput::Empty, 0, 3, 80, 0).is_empty());
    assert!(matches!(output_lines(true, &ExpertOutput::Loading, 0, 3, 80, 0)[..], [OutputLine::Loading(_)]));
}

#[test]
fn checks_show_advice_and_a_verdict() {
    let checks = vec![check_network_manager(Some("running")), check_dnsmasq(false)];
    let v = output_lines(true, &ExpertOutput::Doctor(checks.clone()), 0, 20, 22, 0);
    let t = texts(&v);
    assert_eq!(t.len(), 5);
    assert_eq!(t[2], "  Install it: sudo");
    assert_eq!(t[3], "  pacman -S dnsmasq");
    assert_eq!(t[4], "verdict false");
    let v = output_lines(true, &ExpertOutput::Doctor(checks), 0, 2, 22, 0);
    assert_eq!(v.len(), 2);
    let ok = vec![check_network_manager(Some("running"))];
    let t = texts(&output_lines(true, &ExpertOutput::Doctor(ok), 0, 9, 80, 0));
    assert_eq!(t.last().unwrap(), "verdict true");
}
