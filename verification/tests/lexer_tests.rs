use mips_assembler::lexer::tokenize;
use mips_assembler::token::{TokenList, TokenType};

#[test]
fn tokenize_test() {
    let data: &str = "#Dummy comment
        .data # another comment
        LENGTH = 10
        array:  .space LENGTH
        str:    .asciiz \"the (end)\"
        .text
        main:  lw $t0, array
        lw $t1, ($t0)
        ";

    let result: TokenList = tokenize(data).unwrap();

    assert_eq!(result.last().unwrap().get_type(), &TokenType::Eol);
    assert_eq!(result.first().unwrap().get_type(), &TokenType::String);
    assert_eq!(result.first().unwrap().get_line(), &2);
    assert_eq!(result.len(), 31);
}

#[test]
fn tokenize_edge_cases() {
    {
        let data: &str = "string = 100\n\"\"data";
        let result: TokenList = tokenize(data).unwrap();
        assert_eq!(result.last().unwrap().get_type(), &TokenType::Eol);
        assert_eq!(result.len(), 9);
        assert_eq!(result.get(5).unwrap().get_type(), &TokenType::String);
        assert_eq!(result.get(5).unwrap().get_value(), "");
    }
    {
        let data: &str = "test\n\ndummydata\n";
        let result: TokenList = tokenize(data).unwrap();
        assert_eq!(result.len(), 4);
    }
    {
        let data: &str = "(()data";
        let result = tokenize(data);
        assert!(matches!(result, Err(..)));
    }
    {
        let data: &str = "(data))";
        let result = tokenize(data);
        assert!(matches!(result, Err(..)));
    }
    {
        let data: &str = "\n\n#comment \"here\"\n\n";
        let result: TokenList = tokenize(data).unwrap();
        assert_eq!(result.len(), 0);
    }
    {
        let data: &str = "\"( #\"";
        let result: TokenList = tokenize(data).unwrap();
        assert_eq!(result.len(), 4);
        assert_eq!(result.last().unwrap().get_type(), &TokenType::Eol);
    }
    {
        let data: &str = "\"";
        let result = tokenize(data);
        assert!(matches!(result, Err(..)));
    }
    {
        let data: &str = "";
        let result: TokenList = tokenize(data).unwrap();
        assert_eq!(result.len(), 0);
    }
}

#[test]
fn lexer_error_messages() {
    assert_eq!(tokenize(")").unwrap_err(), "Error: mismatched paren");
    assert_eq!(tokenize("(a\n").unwrap_err(), "Error: mismatched paren");
    assert_eq!(tokenize("\"abc\nx").unwrap_err(), "Error: misplaced string delim");
    assert_eq!(tokenize("\"abc").unwrap_err(), "Error: misplaced string delim");
}
