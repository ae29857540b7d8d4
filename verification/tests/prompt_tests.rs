use shell_prompt::Divergence;
use shell_prompt::PromptError;
use shell_prompt::format_timing;
use shell_prompt::get_exit_code;
use shell_prompt::get_git_status;
use shell_prompt::get_left_prompt;
use shell_prompt::get_path;
use shell_prompt::get_right_prompt;
use shell_prompt::get_timing;
use shell_prompt::home_substitution;
use shell_prompt::parse_git_ab;
use shell_prompt::select_colors;
use shell_prompt::tmux_substitution;

#[test]
fn home_abbreviation_below_home() {
    assert_eq!(home_substitution("/home/u/proj", "/home/u"), "~/proj");
    assert_eq!(home_substitution("/home/u/a/b/c", "/home/u"), "~/a/b/c");
}

#[test]
fn home_abbreviation_at_home() {
    assert_eq!(home_substitution("/home/u", "/home/u"), "~");
}

#[test]
fn home_abbreviation_outside_home() {
    assert_eq!(home_substitution("/etc/nginx", "/home/u"), "/etc/nginx");
    assert_eq!(home_substitution("/", "/home/u"), "/");
}

#[test]
fn home_abbreviation_with_root_home() {
    // The filesystem root is a legal home directory; it carries its
    // separator itself.
    assert_eq!(home_substitution("/", "/"), "~");
    assert_eq!(home_substitution("/etc", "/"), "~/etc");
}

#[test]
fn home_abbreviation_sibling_prefix_is_not_inside() {
    // "/home/university" shares a string prefix with "/home/u" but is not
    // below it.
    assert_eq!(
        home_substitution("/home/university", "/home/u"),
        "/home/university"
    );
}

#[test]
fn session_substitution_at_root() {
    assert_eq!(
        tmux_substitution("/home/u/work", "/home/u/work"),
        Ok(Some("work".to_string()))
    );
}

#[test]
fn session_substitution_below_root() {
    assert_eq!(
        tmux_substitution("/home/u/work/src/deep", "/home/u/work"),
        Ok(Some("work/src/deep".to_string()))
    );
}

#[test]
fn session_substitution_outside_root() {
    assert_eq!(tmux_substitution("/tmp/x", "/home/u/work"), Ok(None));
}

#[test]
fn session_root_without_leaf_is_fatal() {
    assert_eq!(
        tmux_substitution("/home/u", "/"),
        Err(PromptError::MalformedSessionPath)
    );
    assert_eq!(
        tmux_substitution("/home/u", ""),
        Err(PromptError::MalformedSessionPath)
    );
}

#[test]
fn session_rule_takes_priority_over_home_rule() {
    // The path is below both the session root and home: the session leaf
    // wins and no `~` appears.
    let colors = select_colors(false);
    let r = get_path(
        Some("/home/u/work/sub"),
        "/home/u",
        Some("/home/u/work"),
        &colors,
    )
    .unwrap();
    assert_eq!(r, format!("\x01\x1b[36m\x02work/sub\x01\x1b[0m\x02"));
    assert!(!r.contains('~'));
}

#[test]
fn path_placeholder_when_cwd_unknown() {
    let colors = select_colors(false);
    let r = get_path(None, "/home/u", None, &colors).unwrap();
    assert_eq!(r, "\x01\x1b[36m\x02???\x01\x1b[0m\x02");
}

#[test]
fn divergence_mapping_is_exhaustive() {
    assert_eq!(parse_git_ab("+0 -0"), Ok(Divergence::InSync));
    assert_eq!(parse_git_ab("+2 -0"), Ok(Divergence::Ahead));
    assert_eq!(parse_git_ab("+0 -3"), Ok(Divergence::Behind));
    assert_eq!(parse_git_ab("+2 -3"), Ok(Divergence::Both));
}

#[test]
fn divergence_counts_are_read_as_integers() {
    // Every digit-string rendering of zero denotes zero.
    assert_eq!(parse_git_ab("+00 -0"), Ok(Divergence::InSync));
    assert_eq!(parse_git_ab("+0 -000"), Ok(Divergence::InSync));
    assert_eq!(parse_git_ab("+02 -00"), Ok(Divergence::Ahead));
    assert_eq!(
        get_git_status(Some("# branch.head main\n# branch.ab +00 -000\n")).unwrap(),
        Some(" (main)".to_string())
    );
}

#[test]
fn divergence_glyphs_in_summary() {
    let none = get_git_status(Some("# branch.head main\n# branch.ab +0 -0\n")).unwrap();
    assert_eq!(none, Some(" (main)".to_string()));
    let ahead = get_git_status(Some("# branch.head main\n# branch.ab +2 -0\n")).unwrap();
    assert_eq!(ahead, Some(" (main ⬆︎)".to_string()));
    let behind = get_git_status(Some("# branch.head main\n# branch.ab +0 -7\n")).unwrap();
    assert_eq!(behind, Some(" (main ⬇︎)".to_string()));
    let both = get_git_status(Some("# branch.head main\n# branch.ab +1 -1\n")).unwrap();
    assert_eq!(both, Some(" (main ⬆︎⬇︎)".to_string()));
}

#[test]
fn malformed_ab_is_a_reported_failure() {
    assert_eq!(
        parse_git_ab("0 -0"),
        Err(PromptError::MalformedAheadBehind)
    );
    assert_eq!(
        parse_git_ab("+0 0"),
        Err(PromptError::MalformedAheadBehind)
    );
    assert_eq!(parse_git_ab("+0"), Err(PromptError::MalformedAheadBehind));
    assert_eq!(
        parse_git_ab("+0 -0 -1"),
        Err(PromptError::MalformedAheadBehind)
    );
    assert_eq!(parse_git_ab(""), Err(PromptError::MalformedAheadBehind));
    assert_eq!(
        get_git_status(Some("# branch.head main\n# branch.ab 2 0\n")),
        Err(PromptError::MalformedAheadBehind)
    );
}

#[test]
fn summary_without_branch_line_uses_placeholder() {
    let r = get_git_status(Some("# branch.oid deadbeef\n# branch.ab +0 -0\n")).unwrap();
    assert_eq!(r, Some(" (???)".to_string()));
}

#[test]
fn summary_without_ab_line_has_no_glyph() {
    let r = get_git_status(Some("# branch.head dev\n")).unwrap();
    assert_eq!(r, Some(" (dev)".to_string()));
}

#[test]
fn summary_absent_report_is_absent() {
    assert_eq!(get_git_status(None), Ok(None));
}

#[test]
fn summary_last_line_wins() {
    let r = get_git_status(Some(
        "# branch.head one\n# branch.head two\n# branch.ab +1 -0\n# branch.ab +0 -0\n",
    ))
    .unwrap();
    assert_eq!(r, Some(" (two)".to_string()));
}

#[test]
fn timing_tier_boundaries() {
    assert_eq!(format_timing(99), "99ms");
    assert_eq!(format_timing(100), ".10s");
    assert_eq!(format_timing(999), ".99s");
    assert_eq!(format_timing(1000), "1.0s");
    assert_eq!(format_timing(59999), "59.9s");
    assert_eq!(format_timing(60000), "1m0s");
    assert_eq!(format_timing(3599999), "59m59s");
    assert_eq!(format_timing(3600000), "1h0m");
}

#[test]
fn timing_small_values_are_zero_padded() {
    assert_eq!(format_timing(0), "00ms");
    assert_eq!(format_timing(5), "05ms");
    assert_eq!(format_timing(65000), "1m5s");
    assert_eq!(format_timing(-5), "-05ms");
}

#[test]
fn timing_absent_or_malformed_is_silent() {
    assert_eq!(get_timing(None), None);
    assert_eq!(get_timing(Some("soon")), None);
    assert_eq!(get_timing(Some("")), None);
    assert_eq!(get_timing(Some("12.5")), None);
    assert_eq!(get_timing(Some("2147483648")), None);
    assert_eq!(get_timing(Some("99")), Some("99ms".to_string()));
    assert_eq!(get_timing(Some("-40")), Some("-40ms".to_string()));
}

#[test]
fn timing_negative_values_use_the_magnitude_tier() {
    // The tier is chosen on the magnitude; the sign only prefixes it.
    assert_eq!(format_timing(-500), "-.50s");
    assert_eq!(format_timing(-65000), "-1m5s");
    assert_eq!(get_timing(Some("-500")), Some("-.50s".to_string()));
}

#[test]
fn timing_accepts_sign_prefixes_and_extremes() {
    // A leading `+` is accepted, as the integer parser of the shell state
    // accepts it.
    assert_eq!(get_timing(Some("+7")), Some("07ms".to_string()));
    assert_eq!(get_timing(Some("+")), None);
    assert_eq!(get_timing(Some("-")), None);
    assert_eq!(get_timing(Some("007")), Some("07ms".to_string()));
    assert_eq!(get_timing(Some("2147483647")), Some("596h31m".to_string()));
    assert_eq!(
        get_timing(Some("-2147483648")),
        Some("-596h31m".to_string())
    );
    assert_eq!(get_timing(Some("-2147483649")), None);
}

#[test]
fn exit_segment_absent_exactly_for_zero() {
    let colors = select_colors(false);
    assert_eq!(get_exit_code("0", &colors), None);
    assert_eq!(
        get_exit_code("1", &colors),
        Some(format!(" \x01\x1b[31m\x021\x01\x1b[0m\x02"))
    );
    assert_eq!(
        get_exit_code("oops", &colors),
        Some(format!(" \x01\x1b[31m\x02oops\x01\x1b[0m\x02"))
    );
    assert_eq!(
        get_exit_code("-1", &colors),
        Some(format!(" \x01\x1b[31m\x02-1\x01\x1b[0m\x02"))
    );
    // "00" is not the literal "0".
    assert!(get_exit_code("00", &colors).is_some());
}

#[test]
fn zsh_profile_uses_percent_markers() {
    let colors = select_colors(true);
    let r = get_path(Some("/home/u"), "/home/u", None, &colors).unwrap();
    assert_eq!(r, "%{\x1b[36m%}~%{\x1b[0m%}");
}

#[test]
fn end_to_end_quiet_success() {
    // Exit code "0", no timing, no repository, cwd just below home.
    let colors = select_colors(false);
    let left = get_left_prompt(Some("/home/u/proj"), "/home/u", None, None, &colors).unwrap();
    assert_eq!(left, "\x01\x1b[36m\x02~/proj\x01\x1b[0m\x02$ ");
    let right = get_right_prompt("0", None, &colors);
    assert_eq!(right, "");
}

#[test]
fn end_to_end_failed_command_in_repo() {
    // Exit code "1", timing 65000 ms, branch main two commits ahead.
    let colors = select_colors(false);
    let report = "# branch.head main\n# branch.ab +2 -0\n";
    let left = get_left_prompt(
        Some("/home/u/proj"),
        "/home/u",
        None,
        Some(report),
        &colors,
    )
    .unwrap();
    assert!(left.contains(" (main ⬆︎)"));
    assert_eq!(
        left,
        "\x01\x1b[36m\x02~/proj\x01\x1b[0m\x02 (main ⬆︎)$ "
    );
    let right = get_right_prompt("1", Some("65000"), &colors);
    assert!(right.contains("1m5s"));
    assert_eq!(
        right,
        " \x01\x1b[31m\x021\x01\x1b[0m\x02 \x01\x1b[2m\x02in 1m5s\x01\x1b[0m\x02"
    );
}

#[test]
fn left_prompt_propagates_malformed_session_root() {
    let colors = select_colors(false);
    assert_eq!(
        get_left_prompt(Some("/home/u"), "/home/u", Some("/"), None, &colors),
        Err(PromptError::MalformedSessionPath)
    );
}

#[test]
fn right_prompt_single_segments() {
    let colors = select_colors(false);
    assert_eq!(
        get_right_prompt("3", None, &colors),
        " \x01\x1b[31m\x023\x01\x1b[0m\x02"
    );
    assert_eq!(
        get_right_prompt("0", Some("250"), &colors),
        "\x01\x1b[2m\x02.25s\x01\x1b[0m\x02"
    );
}
