use monkey_rs::lexer::Lexer;
use monkey_rs::token::{Token, TokenType};

#[test]
fn test_no_line() {
    let input = "";
    let tests = [Token::new(TokenType::EOF, "")];
    let mut lexer = Lexer::new(input);
    for tt in tests.iter() {
        let tok = lexer.next_token();

        assert_eq!(tok.get_token_type(), tt.get_token_type());
        assert_eq!(tok.get_literal(), tt.get_literal());
    }
}

#[test]
fn test_next_token() {
    let input = "
        =+(){},;
        let five = 5;
        let ten = 10;

        let add = fn(x, y) {
            x + y;
        };

        let result = add(five, ten);

        !-/*5;
        5 < 10 > 5;

        if (5 < 10) {
            return true;
        } else {
            return false;
        }

        10 == 10;
        10 != 9;
        ";

    let tests = [
        Token::new(TokenType::ASSIGN, "="),
        Token::new(TokenType::PLUS, "+"),
        Token::new(TokenType::LPAREN, "("),
        Token::new(TokenType::RPAREN, ")"),
        Token::new(TokenType::LBRACE, "{"),
        Token::new(TokenType::RBRACE, "}"),
        Token::new(TokenType::COMMA, ","),
        Token::new(TokenType::SEMICOLON, ";"),
        Token::new(TokenType::LET, "let"),
        Token::new(TokenType::IDENT, "five"),
        Token::new(TokenType::ASSIGN, "="),
        Token::new(TokenType::INT, "5"),
        Token::new(TokenType::SEMICOLON, ";"),
        Token::new(TokenType::LET, "let"),
        Token::new(TokenType::IDENT, "ten"),
        Token::new(TokenType::ASSIGN, "="),
        Token::new(TokenType::INT, "10"),
        Token::new(TokenType::SEMICOLON, ";"),
        Token::new(TokenType::LET, "let"),
        Token::new(TokenType::IDENT, "add"),
        Token::new(TokenType::ASSIGN, "="),
        Token::new(TokenType::FUNCTION, "fn"),
        Token::new(TokenType::LPAREN, "("),
        Token::new(TokenType::IDENT, "x"),
        Token::new(TokenType::COMMA, ","),
        Token::new(TokenType::IDENT, "y"),
        Token::new(TokenType::RPAREN, ")"),
        Token::new(TokenType::LBRACE, "{"),
        Token::new(TokenType::IDENT, "x"),
        Token::new(TokenType::PLUS, "+"),
        Token::new(TokenType::IDENT, "y"),
        Token::new(TokenType::SEMICOLON, ";"),
        Token::new(TokenType::RBRACE, "}"),
        Token::new(TokenType::SEMICOLON, ";"),
        Token::new(TokenType::LET, "let"),
        Token::new(TokenType::IDENT, "result"),
        Token::new(TokenType::ASSIGN, "="),
        Token::new(TokenType::IDENT, "add"),
        Token::new(TokenType::LPAREN, "("),
        Token::new(TokenType::IDENT, "five"),
        Token::new(TokenType::COMMA, ","),
        Token::new(TokenType::IDENT, "ten"),
        Token::new(TokenType::RPAREN, ")"),
        Token::new(TokenType::SEMICOLON, ";"),
        Token::new(TokenType::BANG, "!"),
        Token::new(TokenType::MINUS, "-"),
        Token::new(TokenType::SLASH, "/"),
        Token::new(TokenType::ASTERISK, "*"),
        Token::new(TokenType::INT, "5"),
        Token::new(TokenType::SEMICOLON, ";"),
        Token::new(TokenType::INT, "5"),
        Token::new(TokenType::LT, "<"),
        Token::new(TokenType::INT, "10"),
        Token::new(TokenType::GT, ">"),
        Token::new(TokenType::INT, "5"),
        Token::new(TokenType::SEMICOLON, ";"),
        Token::new(TokenType::IF, "if"),
        Token::new(TokenType::LPAREN, "("),
        Token::new(TokenType::INT, "5"),
        Token::new(TokenType::LT, "<"),
        Token::new(TokenType::INT, "10"),
        Token::new(TokenType::RPAREN, ")"),
        Token::new(TokenType::LBRACE, "{"),
        Token::new(TokenType::RETURN, "return"),
        Token::new(TokenType::TRUE, "true"),
        Token::new(TokenType::SEMICOLON, ";"),
        Token::new(TokenType::RBRACE, "}"),
        Token::new(TokenType::ELSE, "else"),
        Token::new(TokenType::LBRACE, "{"),
        Token::new(TokenType::RETURN, "return"),
        Token::new(TokenType::FALSE, "false"),
        Token::new(TokenType::SEMICOLON, ";"),
        Token::new(TokenType::RBRACE, "}"),
        Token::new(TokenType::INT, "10"),
        Token::new(TokenType::EQ, "=="),
        Token::new(TokenType::INT, "10"),
        Token::new(TokenType::SEMICOLON, ";"),
        Token::new(TokenType::INT, "10"),
        Token::new(TokenType::NEQ, "!="),
        Token::new(TokenType::INT, "9"),
        Token::new(TokenType::SEMICOLON, ";"),
        Token::new(TokenType::EOF, ""),
    ];

    let mut lexer = Lexer::new(input);

    for tt in tests.iter() {
        let tok = lexer.next_token();

        println!("{:?} is {:?}?", tok, tt);
        assert_eq!(tok.get_token_type(), tt.get_token_type());
        assert_eq!(tok.get_literal(), tt.get_literal());
    }
}
