use viktor::bootstrap::updated_gitignore;
use viktor::prompts::{coder_prompt, join_args, researcher_prompt, system_prompt};

#[test]
fn researcher_prompt_carries_the_guidelines() {
    let p = researcher_prompt("use tabs");
    assert!(p.starts_with("You are an expert in analyzing"));
    assert!(p.ends_with("**Guidelines:**\nuse tabs"));
    let empty = researcher_prompt("");
    assert!(empty.ends_with("**Guidelines:**\n"));
}

#[test]
fn coder_prompt_carries_the_guidelines() {
    let p = coder_prompt("prefer small functions");
    assert!(p.starts_with("You analyze code and break down tasks."));
    assert!(p.ends_with("Guidelines:\nprefer small functions\n"));
}

#[test]
fn assistant_prompt_ignores_the_working_directory() {
    let a = system_prompt("/one".to_string());
    let b = system_prompt("/two".to_string());
    assert_eq!(a, b);
    assert!(a.starts_with("You are an AI assistant"));
}

#[test]
fn arguments_join_with_single_spaces() {
    assert_eq!(join_args(&vec![]), "");
    assert_eq!(join_args(&vec!["one".to_string()]), "one");
    assert_eq!(
        join_args(&vec!["fix".to_string(), "the".to_string(), "bug".to_string()]),
        "fix the bug"
    );
}

#[test]
fn gitignore_gains_the_entry_exactly_once() {
    assert_eq!(updated_gitignore("target/\n"), Some("target/\n.viktor/\n".to_string()));
    assert_eq!(updated_gitignore(""), Some(".viktor/\n".to_string()));
    assert_eq!(updated_gitignore("target/\n.viktor/\n"), None);
    assert_eq!(updated_gitignore(".viktor"), None);
}
