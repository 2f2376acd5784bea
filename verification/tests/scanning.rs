use px2::scanner::{Scanner, Token, TokenType};

fn scan_all(source: &[u8]) -> Vec<Token> {
    let mut scanner = Scanner::new(source.to_vec());
    let mut tokens: Vec<Token> = Vec::new();
    loop {
        let t = scanner.scan_token();
        let done = t.token_type == TokenType::EndOfFile;
        tokens.push(t);
        if done {
            break;
        }
    }
    tokens
}

#[test]
fn scans_numbers_and_words() {
    let tokens = scan_all(b"3 4 + println");
    let kinds: Vec<TokenType> = tokens.iter().map(|t| t.token_type).collect();
    assert_eq!(
        kinds,
        vec![
            TokenType::Int,
            TokenType::Int,
            TokenType::Plus,
            TokenType::PrintLn,
            TokenType::EndOfFile,
        ]
    );
}

#[test]
fn token_positions_are_one_based() {
    let tokens = scan_all(b"3 4 + println");
    assert_eq!(tokens[0].line, 1);
    assert_eq!(tokens[0].column, 1);
    assert_eq!(tokens[0].start, 0);
    assert_eq!(tokens[0].length, 1);
    assert_eq!(tokens[1].column, 3);
    assert_eq!(tokens[2].column, 5);
    assert_eq!(tokens[3].column, 7);
    assert_eq!(tokens[3].length, 7);
}

#[test]
fn newline_advances_line_and_resets_column() {
    let tokens = scan_all(b"1\n 2");
    assert_eq!(tokens[0].line, 1);
    assert_eq!(tokens[0].column, 1);
    assert_eq!(tokens[1].line, 2);
    assert_eq!(tokens[1].column, 2);
    assert_eq!(tokens[1].start, 3);
}

#[test]
fn end_of_input_token_repeats() {
    let mut scanner = Scanner::new(b"dup".to_vec());
    let first = scanner.scan_token();
    assert_eq!(first.token_type, TokenType::Dup);
    let eof1 = scanner.scan_token();
    let eof2 = scanner.scan_token();
    assert_eq!(eof1.token_type, TokenType::EndOfFile);
    assert_eq!(eof2, eof1);
}

#[test]
fn keywords_are_classified() {
    let tokens = scan_all(b"dup drop false over println rot swap true");
    let kinds: Vec<TokenType> = tokens.iter().map(|t| t.token_type).collect();
    assert_eq!(
        kinds,
        vec![
            TokenType::Dup,
            TokenType::Drop,
            TokenType::False,
            TokenType::Over,
            TokenType::PrintLn,
            TokenType::Rot,
            TokenType::Swap,
            TokenType::True,
            TokenType::EndOfFile,
        ]
    );
}

#[test]
fn near_keywords_are_identifiers() {
    let tokens = scan_all(b"dupp Rot swap_ tru foo_1");
    for t in &tokens[..tokens.len() - 1] {
        assert_eq!(t.token_type, TokenType::Identifier);
    }
}

#[test]
fn operators_and_invalid_characters() {
    let tokens = scan_all(b"+ - * / @");
    let kinds: Vec<TokenType> = tokens.iter().map(|t| t.token_type).collect();
    assert_eq!(
        kinds,
        vec![
            TokenType::Plus,
            TokenType::Minus,
            TokenType::Star,
            TokenType::Slash,
            TokenType::Error,
            TokenType::EndOfFile,
        ]
    );
    assert_eq!(tokens[4].column, 9);
    assert_eq!(tokens[4].length, 1);
}

#[test]
fn scanning_twice_yields_identical_tokens() {
    let source = b"1 2 swap - println\n true false @ foo";
    let first = scan_all(source);
    let second = scan_all(source);
    assert_eq!(first, second);
}

#[test]
fn lexeme_returns_the_token_text() {
    let mut scanner = Scanner::new(b"  1234 dup".to_vec());
    let t = scanner.scan_token();
    assert_eq!(scanner.lexeme(&t), b"1234".to_vec());
    let t2 = scanner.scan_token();
    assert_eq!(scanner.lexeme(&t2), b"dup".to_vec());
}
