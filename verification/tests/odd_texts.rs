use cronal::rule::Rule;

#[test]
fn odd_texts_are_judged_without_panic() {
    let odd = [
        "*/0 * * * * *",
        "0/0 * * * * *",
        "1-5/0 * * * * *",
        "99999999999999999999999 * * * * *",
        "5-1 * * * * *",
        "* * * * * * 1969",
        "* * * * * * 2101",
        "* * * 31 2 *",
        "\u{1F600} * * * * *",
        "   0    *   * * * *  ",
        "0 * * * * *\n",
        "@yearly",
        "@hourly extra",
        "* * * * * ?",
        "? ? ? ? ? ?",
        "0 0 0 ? * L",
        "-1 * * * * *",
        "0,,1 * * * * *",
    ];
    for text in odd {
        let parsed = Rule::parse(text);
        if let Ok(rule) = parsed {
            assert_eq!(rule.source(), text);
            let _ = rule.next_invocation_after(1_700_000_000);
            let _ = rule.next_invocation_after(-1);
            let _ = rule.next_invocation_after(4_200_000_000);
        }
    }
}
