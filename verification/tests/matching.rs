use contextsend::matching::{
    conversation_fulltext, match_in_app, match_score, normalize, prepare_snippet,
    score_meets_threshold, ConversationMatch, MatchScore, FUZZY_THRESHOLD_DEN,
    FUZZY_THRESHOLD_NUM, MIN_SNIPPET_CHARS,
};
use contextsend::{AdapterError, ChatMessage, Conversation};

fn convo(title: &str, msgs: &[&str]) -> Conversation {
    let mut c = Conversation::new();
    c.title = Some(title.to_string());
    for (i, m) in msgs.iter().enumerate() {
        c.messages.push(if i % 2 == 0 {
            ChatMessage::user(*m)
        } else {
            ChatMessage::assistant(*m)
        });
    }
    c
}

fn as_f64(s: MatchScore) -> f64 {
    s.num as f64 / s.den as f64
}

fn threshold() -> f64 {
    FUZZY_THRESHOLD_NUM as f64 / FUZZY_THRESHOLD_DEN as f64
}

#[test]
fn normalize_collapses_whitespace_and_case() {
    assert_eq!(normalize("  Hello\n\tWorld  "), "hello world");
}

#[test]
fn exact_substring_scores_full() {
    let c = convo("天气", &["今天北京天气怎么样", "今天北京晴，气温二十五度"]);
    let text = normalize(&conversation_fulltext(&c));
    assert!(text.contains(&normalize("今天北京晴，气温二十五度")));
}

#[test]
fn ngram_overlap_high_for_minor_edit() {
    let source_text = "这是一段足够长的上下文用来测试模糊匹配能力";
    let edited = "这是一段足够长的上下文用来测试模糊比对能力";
    let snippet_chars: Vec<char> = normalize(edited).chars().collect();
    let score = match_score(&snippet_chars, &normalize(source_text));
    assert!(as_f64(score) > threshold(), "score={}", as_f64(score));
}

#[test]
fn ngram_overlap_low_for_unrelated() {
    let snippet_chars: Vec<char> = normalize("完全不相关的一段文字内容这里随便写写")
        .chars()
        .collect();
    let score = match_score(&snippet_chars, &normalize("另一篇讲述天气与温度的对话记录"));
    assert!(as_f64(score) < threshold(), "score={}", as_f64(score));
}

#[test]
fn dirty_snippet_matches_via_longest_run() {
    let clean = "当方程的判别式大于零时该一元二次方程在实数范围内有两个不相等的实数解";
    let convo_text = normalize(&format!("数学问答 {clean} 你说得对"));
    let dirty = format!("a ≠ 0 N N 2 + b x + c = 0 {clean} √ π ∑ 1 / n ^ 2");
    let snippet_chars: Vec<char> = normalize(&dirty).chars().collect();
    let score = match_score(&snippet_chars, &convo_text);
    assert!(as_f64(score) >= threshold(), "score={}", as_f64(score));
    assert!(score_meets_threshold(score));
}

#[test]
fn too_short_snippet_is_rejected_when_prepared() {
    assert!(matches!(
        prepare_snippet("太短了"),
        Err(AdapterError::SnippetTooShort(n)) if n == MIN_SNIPPET_CHARS
    ));
}

#[test]
fn prepare_snippet_normalizes() {
    let (norm, cs) = prepare_snippet("  Hello   Big\tWORLD ").unwrap();
    assert_eq!(norm, "hello big world");
    assert_eq!(cs.len(), 15);
}

#[test]
fn fulltext_joins_title_and_messages() {
    let c = convo("T", &["a", "b"]);
    assert_eq!(conversation_fulltext(&c), "T\na\nb");
}

#[test]
fn match_score_zero_when_text_shorter_than_window() {
    let snippet: Vec<char> = "abcdefghijkl".chars().collect();
    let score = match_score(&snippet, "abc");
    assert_eq!(score.num, 0);
}

#[test]
fn exact_hit_returns_full_score() {
    let convos = vec![
        convo("无关", &["完全不同的内容在这里"]),
        convo("天气", &["今天北京天气怎么样", "今天北京晴，气温二十五度"]),
    ];
    let (norm, cs) = prepare_snippet("今天北京晴，气温二十五度").unwrap();
    let mut best: Option<ConversationMatch> = None;
    let hit = match_in_app("Jan", convos, &norm, &cs, &mut best).expect("应精确命中");
    assert_eq!(hit.app, "Jan");
    assert_eq!(hit.score, MatchScore { num: 1, den: 1 });
    assert_eq!(hit.conversation.title.as_deref(), Some("天气"));
}

#[test]
fn fuzzy_best_is_kept_across_apps() {
    let convos = vec![convo("测试", &["这是一段足够长的上下文用来测试模糊匹配能力"])];
    let (norm, cs) = prepare_snippet("这是一段足够长的上下文用来测试模糊比对能力").unwrap();
    let mut best: Option<ConversationMatch> = None;
    let hit = match_in_app("Jan", convos, &norm, &cs, &mut best);
    assert!(hit.is_none());
    let b = best.expect("模糊命中应记入 best");
    assert_eq!(b.app, "Jan");
    assert!(as_f64(b.score) > threshold());
}

#[test]
fn unrelated_conversations_leave_best_empty() {
    let convos = vec![convo("天气", &["另一篇讲述天气与温度的对话记录"])];
    let (norm, cs) = prepare_snippet("完全不相关的一段文字内容这里随便写写").unwrap();
    let mut best: Option<ConversationMatch> = None;
    assert!(match_in_app("Jan", convos, &norm, &cs, &mut best).is_none());
    assert!(best.is_none());
}

#[test]
fn fuzzy_keeps_the_highest_score() {
    // Two fuzzy candidates above the threshold (9/12 and 7/12 of the
    // grams hit); the higher one is kept whatever the order.
    let snippet = "这是一段足够长的上下文用来测试模糊匹配能力";
    let near = "这是一段足够长的上下文用来测试模糊匹X能力";
    let far = "这是一段足够长的上下文用来测试模X匹配能力";
    let (norm, cs) = prepare_snippet(snippet).unwrap();
    for order in [vec![far, near], vec![near, far]] {
        let convos: Vec<Conversation> = order.iter().map(|t| convo(t, &[])).collect();
        let mut best: Option<ConversationMatch> = None;
        assert!(match_in_app("Jan", convos, &norm, &cs, &mut best).is_none());
        let b = best.expect("应有模糊命中");
        assert_eq!(b.conversation.title.as_deref(), Some(near));
    }
}

#[test]
fn scores_stay_between_zero_and_one() {
    let snippet: Vec<char> = "abcdefghijabcdefghij".chars().collect();
    for text in ["abcdefghijabcdefghij", "xyz", "abcdefghij", ""] {
        let s = match_score(&snippet, text);
        assert!(s.den > 0 && s.num <= s.den);
    }
    let s = match_score(&snippet, "abcdefghijabcdefghij");
    assert_eq!(s.num, s.den);
}

#[test]
fn normalizing_ignores_spacing() {
    for s in ["  Hello\n\tWorld  ", "a\u{3000}b  c", "", "   "] {
        let once = normalize(s);
        assert_eq!(normalize(&once), once);
    }
    assert_eq!(normalize("Hello World"), normalize(" Hello \n\n World\t"));
}
