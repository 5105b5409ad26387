use statusbar::status::{join_outputs, spaced_outputs};

fn owned(v: &[&str]) -> Vec<String> {
    v.iter().map(|s| s.to_string()).collect()
}

#[test]
fn joins_with_single_spaces() {
    assert_eq!(join_outputs(&owned(&["a", "bc", "d"])), "a bc d");
    assert_eq!(join_outputs(&owned(&[])), "");
    assert_eq!(join_outputs(&owned(&["only"])), "only");
    assert_eq!(join_outputs(&owned(&["", "x", ""])), " x ");
}

#[test]
fn spaced_is_joined_plus_space() {
    for v in [vec!["a", "b"], vec!["x"], vec!["", ""], vec!["^c#888811^CPU^d^", "12"]] {
        let outs = owned(&v);
        let spaced = spaced_outputs(&outs);
        assert_eq!(spaced, format!("{} ", join_outputs(&outs)));
    }
    assert_eq!(spaced_outputs(&owned(&[])), "");
}
