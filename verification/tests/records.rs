use ler_datagen::gentar::{build_prompt, should_continue_decrementing, WithoutTarget};
use ler_datagen::output_dir::OutputDir;

#[test]
fn into_with_target_keeps_fields() {
    let rec = WithoutTarget {
        source: "nginx".to_string(),
        text: "GET /index 200".to_string(),
    };
    let with = rec.into_with_target("METHOD GET\nSTATUS 200".to_string());
    assert_eq!(with.source, "nginx");
    assert_eq!(with.text, "GET /index 200");
    assert_eq!(with.target, "METHOD GET\nSTATUS 200");
}

#[test]
fn countdown_stops_at_zero() {
    let mut count = Some(2usize);
    assert!(should_continue_decrementing(&mut count));
    assert_eq!(count, Some(1));
    assert!(should_continue_decrementing(&mut count));
    assert_eq!(count, Some(0));
    assert!(!should_continue_decrementing(&mut count));
    assert_eq!(count, Some(0));

    let mut unlimited: Option<usize> = None;
    assert!(should_continue_decrementing(&mut unlimited));
    assert!(should_continue_decrementing(&mut unlimited));
    assert_eq!(unlimited, None);
}

#[test]
fn prompt_embeds_text_and_source() {
    let rec = WithoutTarget {
        source: "nginx".to_string(),
        text: "GET /index 200".to_string(),
    };
    let prompt = build_prompt(&rec);
    assert!(prompt.starts_with("Your task it to extract information"));
    assert!(prompt.contains("```\nGET /index 200\n```"));
    assert!(prompt.contains("generated from the software nginx. So, produce"));
    assert!(prompt.ends_with("Just print the key-values and summary"));
}

#[test]
fn file_with_name_uses_log_extension() {
    let dir = OutputDir::new("output/run".to_string());
    assert_eq!(dir.file_with_name("nginx"), "output/run/nginx.log");
    assert_eq!(dir.file_with_name("archive.tar"), "output/run/archive.log");
    assert_eq!(dir.file_with_name("a.b.c"), "output/run/a.b.log");
    assert_eq!(dir.file_with_name(".hidden"), "output/run/.hidden.log");
}
