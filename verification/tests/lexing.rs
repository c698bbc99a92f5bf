use oxeye::lexer::{tokenize, Token, TokenKind};

fn kinds(toks: &[Token]) -> Vec<TokenKind> {
    toks.iter().map(|t| t.kind).collect()
}

fn covers(toks: &[Token], len: usize) {
    let mut at = 0;
    for t in toks {
        assert_eq!(t.start, at, "gap or overlap at {}", at);
        assert!(t.start < t.end);
        at = t.end;
    }
    assert_eq!(at, len);
}

#[test]
fn tokenize_empty() {
    let toks = tokenize(&Vec::new());
    assert!(toks.is_empty());
}

#[test]
fn tokenize_keywords_and_identifiers() {
    let text = b"fn main".to_vec();
    let toks = tokenize(&text);
    covers(&toks, text.len());
    assert_eq!(
        kinds(&toks),
        vec![TokenKind::Keyword, TokenKind::Whitespace, TokenKind::Ident]
    );
}

#[test]
fn tokenize_namespace_and_punctuation() {
    let text = b"fn f() { jet::je }".to_vec();
    let toks = tokenize(&text);
    covers(&toks, text.len());
    assert_eq!(
        kinds(&toks),
        vec![
            TokenKind::Keyword,    // fn
            TokenKind::Whitespace,
            TokenKind::Ident,      // f
            TokenKind::Punct,      // (
            TokenKind::Punct,      // )
            TokenKind::Whitespace,
            TokenKind::Punct,      // {
            TokenKind::Whitespace,
            TokenKind::Ident,      // jet
            TokenKind::NsSep,      // ::
            TokenKind::Ident,      // je
            TokenKind::Whitespace,
            TokenKind::Punct,      // }
        ]
    );
}

#[test]
fn tokenize_literals() {
    let text = b"0x1F 42 0x 7".to_vec();
    let toks = tokenize(&text);
    covers(&toks, text.len());
    // "0x" without a hex digit after it lexes as the number 0 and the
    // identifier x, not as a hex literal.
    assert_eq!(
        kinds(&toks),
        vec![
            TokenKind::HexLit,
            TokenKind::Whitespace,
            TokenKind::NumLit,
            TokenKind::Whitespace,
            TokenKind::NumLit,
            TokenKind::Ident,
            TokenKind::Whitespace,
            TokenKind::NumLit,
        ]
    );
    assert_eq!((toks[0].start, toks[0].end), (0, 4));
}

#[test]
fn tokenize_comments_and_strings() {
    let text = b"// line\nx /* b */ \"s\"".to_vec();
    let toks = tokenize(&text);
    covers(&toks, text.len());
    assert_eq!(
        kinds(&toks),
        vec![
            TokenKind::CommentOrString, // // line
            TokenKind::Whitespace,      // \n
            TokenKind::Ident,           // x
            TokenKind::Whitespace,
            TokenKind::CommentOrString, // /* b */
            TokenKind::Whitespace,
            TokenKind::CommentOrString, // "s"
        ]
    );
}

#[test]
fn tokenize_unterminated_comment_and_string() {
    let text = b"/* open".to_vec();
    let toks = tokenize(&text);
    covers(&toks, text.len());
    assert_eq!(kinds(&toks), vec![TokenKind::CommentOrString]);

    let text = b"\"open".to_vec();
    let toks = tokenize(&text);
    covers(&toks, text.len());
    assert_eq!(kinds(&toks), vec![TokenKind::CommentOrString]);
}

#[test]
fn tokenize_arrow_and_unknown() {
    let text = b"-> - > \xff".to_vec();
    let toks = tokenize(&text);
    covers(&toks, text.len());
    assert_eq!(
        kinds(&toks),
        vec![
            TokenKind::Punct, // ->
            TokenKind::Whitespace,
            TokenKind::Punct, // -
            TokenKind::Whitespace,
            TokenKind::Punct, // >
            TokenKind::Whitespace,
            TokenKind::Unknown, // 0xff
        ]
    );
    assert_eq!((toks[0].start, toks[0].end), (0, 2));
}

#[test]
fn tokenize_never_fails_on_noise() {
    let text = vec![0u8, 255u8, b'{', b'{', b'[', 10u8, 9u8];
    let toks = tokenize(&text);
    covers(&toks, text.len());
}
