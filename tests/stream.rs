use cang_jie::{CangjieTokenStream, Token};

fn tok(from: usize, to: usize, text: &str) -> Token {
    Token {
        offset_from: from,
        offset_to: to,
        position: from,
        text: text.to_string(),
        position_length: to - from,
    }
}

fn collect(stream: &mut CangjieTokenStream) -> Vec<Token> {
    let mut tokens = vec![];
    while stream.advance() {
        tokens.push(stream.token().clone());
    }
    tokens
}

#[test]
fn positions_are_byte_offsets() {
    let src = "中华人民共和国";
    let spans = vec![(0, 6), (3, 9), (6, 12), (12, 18)];
    let mut stream = CangjieTokenStream::new(src, spans);
    let tokens = collect(&mut stream);
    assert_eq!(tokens.len(), 4);
    assert_eq!(tokens[0], tok(0, 6, "中华"));
    assert_eq!(tokens[1], tok(3, 9, "华人"));
    assert_eq!(tokens[2], tok(6, 12, "人民"));
    assert_eq!(tokens[3], tok(12, 18, "共和"));
    assert_eq!(
        (tokens[3].offset_from, tokens[3].offset_to, tokens[3].position, tokens[3].position_length),
        (12, 18, 12, 6)
    );
    assert!(!stream.advance());
}

#[test]
fn empty_segments_yield_nothing() {
    let mut stream = CangjieTokenStream::new("中华人民共和国", vec![]);
    assert!(!stream.advance());
    assert_eq!(*stream.token(), Token::default());
    assert!(!stream.advance());
}

#[test]
fn unset_token_before_advance() {
    let stream = CangjieTokenStream::new("abc", vec![(0, 3)]);
    let t = stream.token();
    assert_eq!(t.offset_from, 0);
    assert_eq!(t.offset_to, 0);
    assert_eq!(t.position, 0);
    assert_eq!(t.position_length, 0);
    assert_eq!(t.text, "");
}

#[test]
fn token_reads_are_stable() {
    let mut stream = CangjieTokenStream::new("hello world", vec![(0, 5), (6, 11)]);
    assert!(stream.advance());
    let first = stream.token().clone();
    let second = stream.token().clone();
    assert_eq!(first, second);
    assert_eq!(first, tok(0, 5, "hello"));
}

#[test]
fn advance_count_matches_segments() {
    let spans = vec![(0, 1), (1, 2), (0, 2), (2, 2), (1, 3)];
    let mut stream = CangjieTokenStream::new("abc", spans);
    let mut hits = 0;
    for _ in 0..5 {
        assert!(stream.advance());
        hits += 1;
    }
    assert_eq!(hits, 5);
    for _ in 0..3 {
        assert!(!stream.advance());
    }
    assert_eq!(*stream.token(), tok(1, 3, "bc"));
}

#[test]
fn token_bytes_round_trip() {
    let src = "héllo wörld 中文";
    let spans = vec![(0, 6), (7, 13), (0, 3), (14, 17), (17, 20), (14, 20)];
    let mut stream = CangjieTokenStream::new(src, spans);
    let tokens = collect(&mut stream);
    assert_eq!(tokens.len(), 6);
    for t in &tokens {
        assert_eq!(t.offset_to, t.offset_from + t.text.len());
        assert_eq!(&src.as_bytes()[t.offset_from..t.offset_to], t.text.as_bytes());
        assert_eq!(t.position, t.offset_from);
        assert_eq!(t.position_length, t.text.len());
    }
    assert_eq!(tokens[0], tok(0, 6, "héllo"));
    assert_eq!(tokens[1], tok(7, 13, "wörld"));
    assert_eq!(tokens[2], tok(0, 3, "hé"));
    assert_eq!(tokens[3], tok(14, 17, "中"));
    assert_eq!(tokens[5], tok(14, 20, "中文"));
}

#[test]
fn position_length_is_byte_length() {
    let mut stream = CangjieTokenStream::new("共和国", vec![(0, 9)]);
    assert!(stream.advance());
    assert_eq!(stream.token().position_length, 9);
    assert_eq!(stream.token().text.chars().count(), 3);
}

#[test]
fn overlapping_segments_share_position() {
    let mut stream = CangjieTokenStream::new("南京大桥", vec![(0, 6), (0, 3), (3, 6)]);
    let tokens = collect(&mut stream);
    assert_eq!(tokens[0], tok(0, 6, "南京"));
    assert_eq!(tokens[1], tok(0, 3, "南"));
    assert_eq!(tokens[0].position, tokens[1].position);
    assert_eq!(tokens[2], tok(3, 6, "京"));
    assert_ne!(tokens[1].position, tokens[2].position);
}

#[test]
fn empty_segment_gives_empty_text() {
    let mut stream = CangjieTokenStream::new("ab", vec![(2, 2)]);
    assert!(stream.advance());
    assert_eq!(*stream.token(), tok(2, 2, ""));
}

#[test]
fn token_mut_rewrites_current_token() {
    let mut stream = CangjieTokenStream::new("长江大桥", vec![(0, 6), (6, 12)]);
    assert!(stream.advance());
    stream.token_mut().text = "river".to_string();
    stream.token_mut().position = 42;
    assert_eq!(stream.token().text, "river");
    assert_eq!(stream.token().position, 42);
    assert_eq!(stream.token().offset_from, 0);
    assert!(stream.advance());
    assert_eq!(*stream.token(), tok(6, 12, "大桥"));
    assert!(!stream.advance());
}
