use rustcast::pattern::{configure_metadata_query, metadata_pattern, search_scopes};

#[test]
fn words_become_a_pattern() {
    assert_eq!(metadata_pattern("img jpg"), "*img*jpg*");
    assert_eq!(metadata_pattern("IMG_1234.jpg"), "*IMG_1234.jpg*");
    assert_eq!(metadata_pattern("  a\t b\u{3000}c "), "*a*b*c*");
}

#[test]
fn wildcards_are_escaped() {
    assert_eq!(metadata_pattern("what? a*"), "*what\\?*a\\**");
    assert_eq!(metadata_pattern("*?"), "*\\*\\?*");
    assert_eq!(metadata_pattern("a\\"), "*a\\*");
}

#[test]
fn patterns_agree_with_the_standard_library() {
    let parts = ["a", " ", "*", "?", "\\", "\u{a0}", "ß", "\n", "x"];
    for a in parts {
        for b in parts {
            for c in parts {
                for d in parts {
                    let text = format!("{a}{b}{c}{d}");
                    if text.trim().is_empty() {
                        continue;
                    }
                    let tokens: Vec<String> = text
                        .split_whitespace()
                        .map(|t| t.replace('*', "\\*").replace('?', "\\?"))
                        .collect();
                    assert_eq!(metadata_pattern(&text), format!("*{}*", tokens.join("*")));
                }
            }
        }
    }
}

#[test]
fn tildes_become_the_home_directory() {
    let dirs = vec!["~/Documents".to_string(), "/usr/~/~".to_string(), "/opt".to_string()];
    assert_eq!(
        search_scopes(&dirs, "/Users/me"),
        ["/Users/me/Documents", "/usr//Users/me//Users/me", "/opt"]
    );
    assert!(search_scopes(&vec![], "/").is_empty());
}

#[test]
fn a_query_gets_its_pattern_and_its_scopes() {
    let search = configure_metadata_query("my file", &vec!["~".to_string()], "/home/me");
    assert_eq!(search.pattern, "*my*file*");
    assert_eq!(search.scopes, ["/home/me"]);
}
