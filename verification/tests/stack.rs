use blake::BlameEntry;
use blake::BlameFrame;
use blake::BlameStack;
use blake::CommitHash;

fn frame(path: &str, hash: &str) -> BlameFrame {
    BlameFrame {
        file_path: path.to_string(),
        commit_hash: CommitHash::new(hash.to_string()),
        entries: vec![],
        selected_line: 0,
    }
}

#[test]
fn empty_stack_pop_returns_none() {
    let mut stack = BlameStack::new();
    assert!(stack.pop().is_none());
}

#[test]
fn empty_stack_current_returns_none() {
    let stack = BlameStack::new();
    assert!(stack.current().is_none());
}

#[test]
fn new_stack_is_empty() {
    let stack = BlameStack::new();
    assert!(stack.is_empty());
    assert_eq!(stack.depth(), 0);
}

#[test]
fn hash_chain_empty_stack_returns_none() {
    let stack = BlameStack::new();
    assert!(stack.hash_chain().is_none());
}

#[test]
fn hash_chain_single_frame_returns_none() {
    let mut stack = BlameStack::new();
    stack.push(BlameFrame {
        file_path: "test.rs".to_string(),
        commit_hash: CommitHash::new("abc123def456789012345678901234567890abcd".to_string()),
        entries: vec![],
        selected_line: 0,
    });
    assert!(stack.hash_chain().is_none());
}

#[test]
fn hash_chain_two_frames_returns_chain() {
    let mut stack = BlameStack::new();
    stack.push(BlameFrame {
        file_path: "test.rs".to_string(),
        commit_hash: CommitHash::new("1111111111111111111111111111111111111111".to_string()),
        entries: vec![],
        selected_line: 0,
    });
    stack.push(BlameFrame {
        file_path: "test.rs".to_string(),
        commit_hash: CommitHash::new("2222222222222222222222222222222222222222".to_string()),
        entries: vec![],
        selected_line: 0,
    });

    let chain = stack.hash_chain().unwrap();
    assert_eq!(chain, "1111111 -> 2222222");
}

#[test]
fn hash_chain_multiple_frames_returns_full_chain() {
    let mut stack = BlameStack::new();
    let hashes = [
        "aaaaaaaaaaaaaaaaaaaaaaaaaaaaaaaaaaaaaaaa",
        "bbbbbbbbbbbbbbbbbbbbbbbbbbbbbbbbbbbbbbbb",
        "cccccccccccccccccccccccccccccccccccccccc",
        "dddddddddddddddddddddddddddddddddddddddd",
    ];

    for hash in hashes {
        stack.push(BlameFrame {
            file_path: "test.rs".to_string(),
            commit_hash: CommitHash::new(hash.to_string()),
            entries: vec![],
            selected_line: 0,
        });
    }

    let chain = stack.hash_chain().unwrap();
    assert_eq!(chain, "aaaaaaa -> bbbbbbb -> ccccccc -> ddddddd");
}

#[test]
fn depth_grows_with_each_push() {
    let mut stack = BlameStack::new();
    for (i, h) in ["aa", "bb", "cc", "dd", "ee"].iter().enumerate() {
        assert_eq!(stack.depth(), i);
        stack.push(frame("f.rs", h));
        assert_eq!(stack.depth(), i + 1);
    }
}

#[test]
fn pop_returns_frames_in_reverse_order() {
    let mut stack = BlameStack::new();
    let hashes = ["aa11", "bb22", "cc33"];
    for h in hashes {
        stack.push(frame("f.rs", h));
    }
    for h in hashes.iter().rev() {
        let popped = stack.pop().unwrap();
        assert_eq!(popped.commit_hash.as_str(), *h);
    }
    assert!(stack.is_empty());
}

#[test]
fn current_reflects_most_recent_push() {
    let mut stack = BlameStack::new();
    for h in ["aa11", "bb22", "cc33"] {
        stack.push(frame("f.rs", h));
        assert_eq!(stack.current().unwrap().commit_hash.as_str(), h);
    }
}

#[test]
fn current_mut_changes_only_the_top_frame() {
    let mut stack = BlameStack::new();
    stack.push(frame("f.rs", "aa11"));
    let mut top = frame("f.rs", "bb22");
    top.entries = vec![BlameEntry {
        line_number: 1,
        commit_hash: CommitHash::new("bb22".to_string()),
        author: "ada".to_string(),
        timestamp: 0,
        content: "fn main() {}".to_string(),
    }];
    stack.push(top);
    stack.current_mut().selected_line = 0;
    assert_eq!(stack.depth(), 2);
    assert_eq!(stack.current().unwrap().commit_hash.as_str(), "bb22");
}

#[test]
fn short_hash_is_a_seven_character_prefix() {
    let hash = CommitHash::new("abcdef0123456789".to_string());
    assert_eq!(hash.short(), "abcdef0");
    let tiny = CommitHash::new("abc".to_string());
    assert_eq!(tiny.short(), "abc");
    assert_eq!(CommitHash::head().as_str(), "HEAD");
}
