use vibe_core::textops::replace_chars;

fn rep(s: &str, from: &str, to: &str) -> String {
    let v: Vec<char> = s.chars().collect();
    let f: Vec<char> = from.chars().collect();
    let t: Vec<char> = to.chars().collect();
    replace_chars(&v, &f, &t).into_iter().collect()
}

#[test]
fn replacing_matches_str_replace() {
    for (s, from, to) in [("abc", "", "-"), ("", "", "-"), ("a{x}b{x}", "{x}", "42"), ("aaa", "aa", "b"), ("abc", "z", "y")] {
        assert_eq!(rep(s, from, to), s.replace(from, to));
    }
}
