use fleet_sizer::template::{render, PLACEHOLDER};

fn count(text: &str, word: &str) -> usize {
    let mut found = 0;
    let mut at = 0;
    while at + word.len() <= text.len() {
        if text.is_char_boundary(at) && text[at..].starts_with(word) {
            found += 1;
        }
        at += 1;
    }
    found
}

#[test]
fn placeholder_is_the_fixed_token() {
    assert_eq!(PLACEHOLDER, "%HHM_ID%");
}

#[test]
fn single_placeholder_is_replaced() {
    let out = render("#!/bin/sh\nhostname node-%HHM_ID%\n", "k3x9ab12");
    assert_eq!(out, "#!/bin/sh\nhostname node-k3x9ab12\n");
    assert_eq!(count(&out, PLACEHOLDER), 0);
    assert_eq!(count(&out, "k3x9ab12"), 1);
}

#[test]
fn template_without_placeholder_is_unchanged() {
    let template = "#!/bin/sh\necho ready % HHM_ID %HHM_ID\n";
    assert_eq!(render(template, "k3x9ab12"), template);
}

#[test]
fn every_placeholder_is_replaced() {
    let out = render("%HHM_ID%:%HHM_ID%%HHM_ID%", "aaaaaaa1");
    assert_eq!(out, "aaaaaaa1:aaaaaaa1aaaaaaa1");
}

#[test]
fn placeholder_at_both_ends() {
    assert_eq!(render("%HHM_ID%", "abcdefgh"), "abcdefgh");
    assert_eq!(render("x%HHM_ID%", "abcdefgh"), "xabcdefgh");
    assert_eq!(render("%HHM_ID%x", "abcdefgh"), "abcdefghx");
}

#[test]
fn empty_template_stays_empty() {
    assert_eq!(render("", "abcdefgh"), "");
}

#[test]
fn partial_placeholders_are_left_verbatim() {
    assert_eq!(render("%HHM_ID", "abcdefgh"), "%HHM_ID");
    assert_eq!(render("%%HHM_ID%%", "abcdefgh"), "%abcdefgh%");
    assert_eq!(render("%HHM_ID%HHM_ID%", "abcdefgh"), "abcdefghHHM_ID%");
    assert_eq!(render("%hhm_id%", "abcdefgh"), "%hhm_id%");
}

#[test]
fn text_outside_ascii_is_kept() {
    assert_eq!(render("héllo %HHM_ID% wörld ✓", "abcdefgh"), "héllo abcdefgh wörld ✓");
}

#[test]
fn render_agrees_with_the_standard_replacement() {
    let templates = [
        "",
        "%",
        "%HHM_ID%",
        "a%HHM_ID%b%HHM_ID%c",
        "%HHM_ID%HHM_ID%HHM_ID%",
        "%%%HHM_ID%%%",
        "no token here",
        "ünïcödé %HHM_ID% ünïcödé",
    ];
    for template in templates {
        assert_eq!(render(template, "z9y8x7w6"), template.replace("%HHM_ID%", "z9y8x7w6"));
    }
}
