use network_csm::transitions::{
    get_group, get_ident, is_punct, parse_transitions, Delimiter, Spacing, TokenError, TokenKind,
    TokenTree, Transition,
};

fn name(n: usize) -> TokenTree {
    TokenTree::Ident(n)
}

fn mark(c: char) -> TokenTree {
    TokenTree::Punct(c, Spacing::Alone)
}

fn spelled(start: usize, message: usize, end: usize) -> Vec<TokenTree> {
    vec![name(start), mark('+'), name(message), mark('='), name(end)]
}

#[test]
fn tokens_of_one_transition() {
    let found = parse_transitions(&spelled(0, 3, 1)).unwrap();
    assert_eq!(found, vec![Transition { start: 0, message: 3, end: 1 }]);
}

#[test]
fn tokens_of_no_transition() {
    assert_eq!(parse_transitions(&Vec::new()).unwrap(), Vec::new());
}

#[test]
fn tokens_of_several_transitions() {
    let mut tokens = spelled(0, 0, 2);
    tokens.push(mark(','));
    tokens.extend(spelled(2, 3, 0));
    tokens.push(mark(','));
    tokens.extend(spelled(2, 2, 3));
    let expected = vec![
        Transition { start: 0, message: 0, end: 2 },
        Transition { start: 2, message: 3, end: 0 },
        Transition { start: 2, message: 2, end: 3 },
    ];
    assert_eq!(parse_transitions(&tokens).unwrap(), expected);
    // a comma behind the last one is taken too
    tokens.push(mark(','));
    assert_eq!(parse_transitions(&tokens).unwrap(), expected);
}

#[test]
fn tokens_cut_off() {
    for keep in 1..5 {
        let mut tokens = spelled(0, 1, 2);
        tokens.truncate(keep);
        assert_eq!(parse_transitions(&tokens), Err(TokenError::Missing), "{keep} tokens");
    }
    let mut tokens = spelled(0, 1, 2);
    tokens.push(mark(','));
    tokens.push(name(4));
    assert_eq!(parse_transitions(&tokens), Err(TokenError::Missing));
}

#[test]
fn tokens_in_the_wrong_place() {
    let mut tokens = spelled(0, 1, 2);
    tokens[0] = mark('+');
    assert_eq!(parse_transitions(&tokens), Err(TokenError::ExpectedIdent(TokenKind::Punct)));

    let mut tokens = spelled(0, 1, 2);
    tokens[1] = mark('-');
    assert_eq!(
        parse_transitions(&tokens),
        Err(TokenError::WrongPunct {
            expected: '+',
            spacing: Spacing::Alone,
            got: '-',
            got_spacing: Spacing::Alone,
        })
    );

    let mut tokens = spelled(0, 1, 2);
    tokens[3] = TokenTree::Punct('=', Spacing::Joint);
    assert_eq!(
        parse_transitions(&tokens),
        Err(TokenError::WrongPunct {
            expected: '=',
            spacing: Spacing::Alone,
            got: '=',
            got_spacing: Spacing::Joint,
        })
    );

    let mut tokens = spelled(0, 1, 2);
    tokens[2] = TokenTree::Literal;
    assert_eq!(parse_transitions(&tokens), Err(TokenError::ExpectedIdent(TokenKind::Literal)));

    let mut tokens = spelled(0, 1, 2);
    tokens[4] = TokenTree::Group(Delimiter::Brace, Vec::new());
    assert_eq!(parse_transitions(&tokens), Err(TokenError::ExpectedIdent(TokenKind::Group)));

    let mut tokens = spelled(0, 1, 2);
    tokens.extend(spelled(2, 3, 0));
    assert_eq!(parse_transitions(&tokens), Err(TokenError::ExpectedPunct(TokenKind::Ident)));

    // the first fault decides, also where the tokens end early
    let tokens = vec![name(0), mark('-')];
    assert!(matches!(parse_transitions(&tokens), Err(TokenError::WrongPunct { .. })));
}

#[test]
fn single_tokens() {
    assert_eq!(get_ident(&name(7)), Ok(7));
    assert_eq!(get_ident(&mark('+')), Err(TokenError::ExpectedIdent(TokenKind::Punct)));
    assert_eq!(is_punct(&mark('+'), '+', Spacing::Alone), Ok(()));
    assert_eq!(
        is_punct(&name(1), '+', Spacing::Alone),
        Err(TokenError::ExpectedPunct(TokenKind::Ident))
    );
    assert_eq!(
        is_punct(&TokenTree::Literal, '+', Spacing::Alone),
        Err(TokenError::ExpectedPunct(TokenKind::Literal))
    );
}

#[test]
fn groups_of_tokens() {
    let group = TokenTree::Group(Delimiter::Bracket, spelled(0, 1, 2));
    let inner = get_group(&group, Delimiter::Bracket).unwrap();
    assert_eq!(
        parse_transitions(inner).unwrap(),
        vec![Transition { start: 0, message: 1, end: 2 }]
    );
    assert_eq!(get_group(&group, Delimiter::Brace).err(), Some(TokenError::WrongDelimiter));
    assert_eq!(
        get_group(&name(0), Delimiter::Bracket).err(),
        Some(TokenError::ExpectedGroup(TokenKind::Ident))
    );
    assert_eq!(
        get_group(&mark(','), Delimiter::Parenthesis).err(),
        Some(TokenError::ExpectedGroup(TokenKind::Punct))
    );
    assert_eq!(
        get_group(&TokenTree::Literal, Delimiter::Invisible).err(),
        Some(TokenError::ExpectedGroup(TokenKind::Literal))
    );
}
