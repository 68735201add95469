use saba_core::attribute::Attribute;
use saba_core::token::{HtmlToken, HtmlTokenizer, State};

#[test]
fn token_test_empty() {
    let html = "".to_string();
    let mut tokenizer = HtmlTokenizer::new(html);
    assert!(tokenizer.next().is_none());
}

#[test]
fn test_start_and_end_tag() {
    let html = "<body></body>".to_string();
    let mut tokenizer = HtmlTokenizer::new(html);
    let expected = [
        HtmlToken::StartTag {
            tag: "body".to_string(),
            self_closing: false,
            attributes: Vec::new(),
        },
        HtmlToken::EndTag {
            tag: "body".to_string(),
        },
    ];
    for e in expected {
        assert_eq!(Some(e), tokenizer.next());
    }
}

#[test]
fn test_attributes() {
    let html = "<p class=\"A\" id='B' foo=bar></p>".to_string();
    let mut tokenizer = HtmlTokenizer::new(html);
    let mut attr1 = Attribute::new();
    attr1.add_char('c', true);
    attr1.add_char('l', true);
    attr1.add_char('a', true);
    attr1.add_char('s', true);
    attr1.add_char('s', true);
    attr1.add_char('A', false);

    let mut attr2 = Attribute::new();
    attr2.add_char('i', true);
    attr2.add_char('d', true);
    attr2.add_char('B', false);

    let mut attr3 = Attribute::new();
    attr3.add_char('f', true);
    attr3.add_char('o', true);
    attr3.add_char('o', true);
    attr3.add_char('b', false);
    attr3.add_char('a', false);
    attr3.add_char('r', false);

    let expected = [
        HtmlToken::StartTag {
            tag: "p".to_string(),
            self_closing: false,
            attributes: vec![attr1, attr2, attr3],
        },
        HtmlToken::EndTag {
            tag: "p".to_string(),
        },
    ];
    for e in expected {
        assert_eq!(Some(e), tokenizer.next());
    }
}

#[test]
fn test_self_closing_tag() {
    let html = "<img />".to_string();
    let mut tokenizer = HtmlTokenizer::new(html);
    let expected = [HtmlToken::StartTag {
        tag: "img".to_string(),
        self_closing: true,
        attributes: Vec::new(),
    }];
    for e in expected {
        assert_eq!(Some(e), tokenizer.next());
    }
}

#[test]
fn test_script_tag() {
    let html = "<script>js code;</script>".to_string();
    let mut tokenizer = HtmlTokenizer::new(html);
    let expected = [
        HtmlToken::StartTag {
            tag: "script".to_string(),
            self_closing: false,
            attributes: Vec::new(),
        },
        HtmlToken::Char('j'),
        HtmlToken::Char('s'),
        HtmlToken::Char(' '),
        HtmlToken::Char('c'),
        HtmlToken::Char('o'),
        HtmlToken::Char('d'),
        HtmlToken::Char('e'),
        HtmlToken::Char(';'),
        HtmlToken::EndTag {
            tag: "script".to_string(),
        },
    ];
    for e in expected {
        assert_eq!(Some(e), tokenizer.next());
    }
}

#[test]
fn test_complete_html_document() {
    let html = r#"<html>
<head></head>
<body>
  <h1 id="title">H1 title</h1>
  <h2 class="class">H2 title</h2>
  <p>Test text.</p>
  <p>
    <a href="example.com">Link1</a>
    <a href="example.com">Link2</a>
  </p>
</body>
</html>"#
        .to_string();
    let mut tokenizer = HtmlTokenizer::new(html);

    let mut id_attr = Attribute::new();
    id_attr.add_char('i', true);
    id_attr.add_char('d', true);
    id_attr.add_char('t', false);
    id_attr.add_char('i', false);
    id_attr.add_char('t', false);
    id_attr.add_char('l', false);
    id_attr.add_char('e', false);

    let mut class_attr = Attribute::new();
    class_attr.add_char('c', true);
    class_attr.add_char('l', true);
    class_attr.add_char('a', true);
    class_attr.add_char('s', true);
    class_attr.add_char('s', true);
    class_attr.add_char('c', false);
    class_attr.add_char('l', false);
    class_attr.add_char('a', false);
    class_attr.add_char('s', false);
    class_attr.add_char('s', false);

    let mut href_attr1 = Attribute::new();
    href_attr1.add_char('h', true);
    href_attr1.add_char('r', true);
    href_attr1.add_char('e', true);
    href_attr1.add_char('f', true);
    href_attr1.add_char('e', false);
    href_attr1.add_char('x', false);
    href_attr1.add_char('a', false);
    href_attr1.add_char('m', false);
    href_attr1.add_char('p', false);
    href_attr1.add_char('l', false);
    href_attr1.add_char('e', false);
    href_attr1.add_char('.', false);
    href_attr1.add_char('c', false);
    href_attr1.add_char('o', false);
    href_attr1.add_char('m', false);

    let mut href_attr2 = Attribute::new();
    href_attr2.add_char('h', true);
    href_attr2.add_char('r', true);
    href_attr2.add_char('e', true);
    href_attr2.add_char('f', true);
    href_attr2.add_char('e', false);
    href_attr2.add_char('x', false);
    href_attr2.add_char('a', false);
    href_attr2.add_char('m', false);
    href_attr2.add_char('p', false);
    href_attr2.add_char('l', false);
    href_attr2.add_char('e', false);
    href_attr2.add_char('.', false);
    href_attr2.add_char('c', false);
    href_attr2.add_char('o', false);
    href_attr2.add_char('m', false);

    let expected_tokens = vec![
        HtmlToken::StartTag {
            tag: "html".to_string(),
            self_closing: false,
            attributes: Vec::new(),
        },
        HtmlToken::Char('\n'),
        HtmlToken::StartTag {
            tag: "head".to_string(),
            self_closing: false,
            attributes: Vec::new(),
        },
        HtmlToken::EndTag {
            tag: "head".to_string(),
        },
        HtmlToken::Char('\n'),
        HtmlToken::StartTag {
            tag: "body".to_string(),
            self_closing: false,
            attributes: Vec::new(),
        },
        HtmlToken::Char('\n'),
        HtmlToken::Char(' '),
        HtmlToken::Char(' '),
        HtmlToken::StartTag {
            tag: "h1".to_string(),
            self_closing: false,
            attributes: vec![id_attr],
        },
        HtmlToken::Char('H'),
        HtmlToken::Char('1'),
        HtmlToken::Char(' '),
        HtmlToken::Char('t'),
        HtmlToken::Char('i'),
        HtmlToken::Char('t'),
        HtmlToken::Char('l'),
        HtmlToken::Char('e'),
        HtmlToken::EndTag {
            tag: "h1".to_string(),
        },
        HtmlToken::Char('\n'),
        HtmlToken::Char(' '),
        HtmlToken::Char(' '),
        HtmlToken::StartTag {
            tag: "h2".to_string(),
            self_closing: false,
            attributes: vec![class_attr],
        },
        HtmlToken::Char('H'),
        HtmlToken::Char('2'),
        HtmlToken::Char(' '),
        HtmlToken::Char('t'),
        HtmlToken::Char('i'),
        HtmlToken::Char('t'),
        HtmlToken::Char('l'),
        HtmlToken::Char('e'),
        HtmlToken::EndTag {
            tag: "h2".to_string(),
        },
        HtmlToken::Char('\n'),
        HtmlToken::Char(' '),
        HtmlToken::Char(' '),
        HtmlToken::StartTag {
            tag: "p".to_string(),
            self_closing: false,
            attributes: Vec::new(),
        },
        HtmlToken::Char('T'),
        HtmlToken::Char('e'),
        HtmlToken::Char('s'),
        HtmlToken::Char('t'),
        HtmlToken::Char(' '),
        HtmlToken::Char('t'),
        HtmlToken::Char('e'),
        HtmlToken::Char('x'),
        HtmlToken::Char('t'),
        HtmlToken::Char('.'),
        HtmlToken::EndTag {
            tag: "p".to_string(),
        },
        HtmlToken::Char('\n'),
        HtmlToken::Char(' '),
        HtmlToken::Char(' '),
        HtmlToken::StartTag {
            tag: "p".to_string(),
            self_closing: false,
            attributes: Vec::new(),
        },
        HtmlToken::Char('\n'),
        HtmlToken::Char(' '),
        HtmlToken::Char(' '),
        HtmlToken::Char(' '),
        HtmlToken::Char(' '),
        HtmlToken::StartTag {
            tag: "a".to_string(),
            self_closing: false,
            attributes: vec![href_attr1],
        },
        HtmlToken::Char('L'),
        HtmlToken::Char('i'),
        HtmlToken::Char('n'),
        HtmlToken::Char('k'),
        HtmlToken::Char('1'),
        HtmlToken::EndTag {
            tag: "a".to_string(),
        },
        HtmlToken::Char('\n'),
        HtmlToken::Char(' '),
        HtmlToken::Char(' '),
        HtmlToken::Char(' '),
        HtmlToken::Char(' '),
        HtmlToken::StartTag {
            tag: "a".to_string(),
            self_closing: false,
            attributes: vec![href_attr2],
        },
        HtmlToken::Char('L'),
        HtmlToken::Char('i'),
        HtmlToken::Char('n'),
        HtmlToken::Char('k'),
        HtmlToken::Char('2'),
        HtmlToken::EndTag {
            tag: "a".to_string(),
        },
        HtmlToken::Char('\n'),
        HtmlToken::Char(' '),
        HtmlToken::Char(' '),
        HtmlToken::EndTag {
            tag: "p".to_string(),
        },
        HtmlToken::Char('\n'),
        HtmlToken::EndTag {
            tag: "body".to_string(),
        },
        HtmlToken::Char('\n'),
        HtmlToken::EndTag {
            tag: "html".to_string(),
        },
    ];

    for expected in expected_tokens {
        let actual = tokenizer.next();
        assert_eq!(Some(expected), actual);
    }
}

#[test]
fn test_mixed_self_closing_and_regular_tags() {
    let html = r#"<div><img src="test.jpg" /><p>Text</p><br/></div>"#.to_string();
    let mut tokenizer = HtmlTokenizer::new(html);

    let mut src_attr = Attribute::new();
    src_attr.add_char('s', true);
    src_attr.add_char('r', true);
    src_attr.add_char('c', true);
    src_attr.add_char('t', false);
    src_attr.add_char('e', false);
    src_attr.add_char('s', false);
    src_attr.add_char('t', false);
    src_attr.add_char('.', false);
    src_attr.add_char('j', false);
    src_attr.add_char('p', false);
    src_attr.add_char('g', false);

    let expected_tokens = vec![
        HtmlToken::StartTag {
            tag: "div".to_string(),
            self_closing: false,
            attributes: Vec::new(),
        },
        HtmlToken::StartTag {
            tag: "img".to_string(),
            self_closing: true,
            attributes: vec![src_attr],
        },
        HtmlToken::StartTag {
            tag: "p".to_string(),
            self_closing: false,
            attributes: Vec::new(),
        },
        HtmlToken::Char('T'),
        HtmlToken::Char('e'),
        HtmlToken::Char('x'),
        HtmlToken::Char('t'),
        HtmlToken::EndTag {
            tag: "p".to_string(),
        },
        HtmlToken::StartTag {
            tag: "br".to_string(),
            self_closing: true,
            attributes: Vec::new(),
        },
        HtmlToken::EndTag {
            tag: "div".to_string(),
        },
    ];

    for expected in expected_tokens {
        let actual = tokenizer.next();
        assert_eq!(Some(expected), actual);
    }
}

#[test]
fn test_uppercase_is_lowercased() {
    let html = "<DIV CLASS=Mixed>x</DIV>".to_string();
    let mut tokenizer = HtmlTokenizer::new(html);
    let mut attr = Attribute::new();
    attr.add_char('c', true);
    attr.add_char('l', true);
    attr.add_char('a', true);
    attr.add_char('s', true);
    attr.add_char('s', true);
    attr.add_char('M', false);
    attr.add_char('i', false);
    attr.add_char('x', false);
    attr.add_char('e', false);
    attr.add_char('d', false);
    let expected = [
        HtmlToken::StartTag {
            tag: "div".to_string(),
            self_closing: false,
            attributes: vec![attr],
        },
        HtmlToken::Char('x'),
        HtmlToken::EndTag {
            tag: "div".to_string(),
        },
    ];
    for e in expected {
        assert_eq!(Some(e), tokenizer.next());
    }
}

#[test]
fn test_char_count_outside_tags() {
    let html = "<p>ab</p>c".to_string();
    let mut tokenizer = HtmlTokenizer::new(html);
    let mut chars = 0;
    while let Some(t) = tokenizer.next() {
        if let HtmlToken::Char(_) = t {
            chars += 1;
        }
    }
    assert_eq!(3, chars);
}

#[test]
fn test_script_data_mode() {
    let html = "<script>a<b</script>".to_string();
    let mut tokenizer = HtmlTokenizer::new(html);
    assert_eq!(
        Some(HtmlToken::StartTag {
            tag: "script".to_string(),
            self_closing: false,
            attributes: Vec::new(),
        }),
        tokenizer.next()
    );
    tokenizer.set_state(State::ScriptData);
    assert_eq!(Some(HtmlToken::Char('a')), tokenizer.next());
    assert_eq!(Some(HtmlToken::Char('<')), tokenizer.next());
    assert_eq!(Some(HtmlToken::Char('b')), tokenizer.next());
    assert_eq!(
        Some(HtmlToken::EndTag {
            tag: "script".to_string(),
        }),
        tokenizer.next()
    );
    assert!(tokenizer.next().is_none());
}

#[test]
fn test_unclosed_tag_emits_eof() {
    let html = "<p class".to_string();
    let mut tokenizer = HtmlTokenizer::new(html);
    assert_eq!(Some(HtmlToken::Eof), tokenizer.next());
    assert!(tokenizer.next().is_none());
}
