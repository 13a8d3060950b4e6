use shimmy::models::{listing_name, model_is_listed, registry_name};

const LISTING: &str = "NAME                    ID              SIZE      MODIFIED\n\
minicpm-v:latest        c92bfad01205    5.5 GB    2 days ago\n\
  LLaVA:13b\t8dd30f6b0cb1    8.0 GB    3 weeks ago\r\n\
\n\
moondream:latest        55fc3abd3867    1.7 GB    5 weeks ago";

#[test]
fn registry_knows_models_by_path() {
    assert_eq!(registry_name("minicpm-v:latest"), "minicpm-v/latest");
    assert_eq!(registry_name("a:b:c"), "a/b/c");
    assert_eq!(registry_name("plain"), "plain");
    assert_eq!(registry_name(""), "");
    assert_eq!(registry_name("é:ü"), "é/ü");
}

#[test]
fn library_names_are_listed_without_the_prefix() {
    assert_eq!(listing_name("registry.ollama.ai/library/minicpm-v/latest"), "minicpm-v:latest");
    assert_eq!(listing_name("registry.ollama.ai/library/"), "");
    assert_eq!(listing_name("minicpm-v:latest"), "minicpm-v:latest");
    assert_eq!(listing_name("other.registry/library/x/y"), "other.registry/library/x/y");
    assert_eq!(listing_name("registry.ollama.ai/library"), "registry.ollama.ai/library");
}

#[test]
fn installed_models_are_found_whatever_their_case() {
    assert!(model_is_listed(LISTING, "minicpm-v:latest"));
    assert!(model_is_listed(LISTING, "llava:13b"));
    assert!(model_is_listed(LISTING, "MOONDREAM:LATEST"));
    assert!(model_is_listed(LISTING, "registry.ollama.ai/library/minicpm-v/latest"));
}

#[test]
fn other_models_are_not_found() {
    assert!(!model_is_listed(LISTING, "minicpm-v"));
    assert!(!model_is_listed(LISTING, "c92bfad01205"));
    assert!(!model_is_listed(LISTING, "NAME"));
    assert!(!model_is_listed(LISTING, ""));
    assert!(!model_is_listed("", "m"));
    assert!(!model_is_listed("m", "m"));
    assert!(!model_is_listed("NAME\n", "m"));
    assert!(model_is_listed("NAME\nm", "m"));
    assert!(model_is_listed("\nm\n", "M"));
}

#[test]
fn listing_check_agrees_with_the_plain_reading() {
    let names: Vec<&str> = vec!["minicpm-v:latest", "LLAVA:13B", "moondream", "5.5", "İx", "i\u{307}x"];
    let listings: Vec<&str> = vec![LISTING, "H\ni\u{307}x 1\n", "H\n\u{130}X 2", "x\n \n\t\n"];
    for listing in &listings {
        for name in &names {
            let plain = listing.lines().skip(1).any(|line| {
                line.split_whitespace()
                    .next()
                    .map(|first| first.to_lowercase() == name.to_lowercase())
                    .unwrap_or(false)
            });
            assert_eq!(model_is_listed(listing, name), plain, "{:?} in {:?}", name, listing);
        }
    }
}
