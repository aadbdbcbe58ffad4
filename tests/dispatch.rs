use ntokens::dispatch::{
    run_dynamic_dispatch, run_static_dispatch, static_dispatcher, FixedSplitter, Tokenizer,
    WhitespaceSplitter,
};
use ntokens::policy::Delimiter;

fn sample_lines() -> Vec<String> {
    vec![
        "".to_string(),
        "a\tb\tc".to_string(),
        "  hello   world  ".to_string(),
        "\t\t".to_string(),
        "x, y,,z".to_string(),
        "\u{3000}wide\u{3000}space".to_string(),
    ]
}

#[test]
fn splitters_count_tokens() {
    let tab = FixedSplitter { sep: '\t' };
    assert_eq!(tab.count_tokens("a\tb\tc"), 3);
    assert_eq!(tab.count_tokens(""), 1);
    assert_eq!(WhitespaceSplitter.count_tokens("  a   b  "), 2);
    assert_eq!(WhitespaceSplitter.count_tokens(""), 0);
}

#[test]
fn static_dispatch_counts_each_line() {
    let lines = sample_lines();
    assert_eq!(run_static_dispatch(Delimiter::tab(), &lines), vec![1, 3, 1, 3, 1, 1]);
    assert_eq!(run_static_dispatch(Delimiter::Whitespace, &lines), vec![0, 3, 2, 0, 2, 2]);
    assert_eq!(run_static_dispatch(Delimiter::Fixed(','), &lines), vec![1, 1, 1, 1, 4, 1]);
}

#[test]
fn dynamic_dispatch_counts_each_line() {
    let lines = sample_lines();
    assert_eq!(run_dynamic_dispatch(Delimiter::tab(), &lines), vec![1, 3, 1, 3, 1, 1]);
    assert_eq!(run_dynamic_dispatch(Delimiter::Whitespace, &lines), vec![0, 3, 2, 0, 2, 2]);
    assert_eq!(run_dynamic_dispatch(Delimiter::Fixed(','), &lines), vec![1, 1, 1, 1, 4, 1]);
}

#[test]
fn dispatch_strategies_agree() {
    let lines = sample_lines();
    for delim in [Delimiter::tab(), Delimiter::Whitespace, Delimiter::Fixed(' '), Delimiter::Fixed('l')] {
        assert_eq!(run_static_dispatch(delim, &lines), run_dynamic_dispatch(delim, &lines));
    }
}

#[test]
fn dispatcher_through_trait_object() {
    let lines = sample_lines();
    let boxed: Box<dyn Tokenizer> = Box::new(WhitespaceSplitter);
    assert_eq!(static_dispatcher(&*boxed, &lines), static_dispatcher(&WhitespaceSplitter, &lines));
}

#[test]
fn dispatch_on_no_lines() {
    let lines: Vec<String> = Vec::new();
    assert!(run_static_dispatch(Delimiter::Whitespace, &lines).is_empty());
    assert!(run_dynamic_dispatch(Delimiter::tab(), &lines).is_empty());
}
