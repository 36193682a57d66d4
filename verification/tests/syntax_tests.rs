use scraper::Selector;
use scraper_rs::syntax::find_flaw;
use scraper_rs::syntax::Flaw;

fn brackets(css: &str) -> bool {
    matches!(find_flaw(css), Some(Flaw::Brackets))
}

fn operand(css: &str) -> bool {
    matches!(find_flaw(css), Some(Flaw::Operand))
}

fn flawless(css: &str) -> bool {
    find_flaw(css).is_none()
}

#[test]
fn simple_selectors_are_flawless() {
    assert!(flawless("a"));
    assert!(flawless("*"));
    assert!(flawless("div.item#x"));
    assert!(flawless("  a  "));
    assert!(flawless("svg|rect"));
}

#[test]
fn combinators_between_compounds_are_flawless() {
    assert!(flawless("div > p"));
    assert!(flawless("div>p"));
    assert!(flawless("a + b ~ c"));
    assert!(flawless("a, b"));
    assert!(flawless("a ,b , c"));
    assert!(flawless("ul li > a + b"));
}

#[test]
fn closed_brackets_are_flawless() {
    assert!(flawless("a[href]"));
    assert!(flawless("[href]"));
    assert!(flawless("a[href=\"/x\"]"));
    assert!(flawless("li:nth-child(2n + 1)"));
    assert!(flawless("a:not([href]):not(.c)"));
    assert!(flawless("a:is(b, c:not([d]))"));
}

#[test]
fn empty_text_lacks_a_compound() {
    assert!(operand(""));
    assert!(operand(" "));
    assert!(operand(" \t\r\n\u{C}"));
    assert!(operand("/* only a comment */"));
}

#[test]
fn dangling_combinator_lacks_a_compound() {
    assert!(operand("div >"));
    assert!(operand("div > "));
    assert!(operand("div +"));
    assert!(operand("div ~\n"));
    assert!(operand("a > /* c */"));
}

#[test]
fn leading_combinator_lacks_a_compound() {
    assert!(operand("> a"));
    assert!(operand("+a"));
    assert!(operand(" ~ a"));
}

#[test]
fn doubled_combinator_lacks_a_compound() {
    assert!(operand("a >> b"));
    assert!(operand("a > > b"));
    assert!(operand("a + ~ b"));
    assert!(operand("a > /* c */ + b"));
}

#[test]
fn empty_alternative_lacks_a_compound() {
    assert!(operand("a,,b"));
    assert!(operand("a,"));
    assert!(operand(",a"));
    assert!(operand("a, ,b"));
    assert!(operand("a >, b"));
    assert!(operand(","));
}

#[test]
fn combinators_inside_brackets_are_not_judged() {
    assert!(flawless("a[b~=c]"));
    assert!(flawless("a:has(> b)"));
    assert!(flawless("a:is(b,,c)"));
    assert!(flawless("li:nth-child(+3)"));
    assert!(flawless("a[b=\">\"]"));
}

#[test]
fn escaped_combinator_is_part_of_a_name() {
    assert!(flawless("a\\>"));
    assert!(flawless("\\+a"));
    assert!(flawless("a > \\,"));
}

#[test]
fn comments_do_not_stand_for_a_compound() {
    assert!(flawless("a /* c */ > b"));
    assert!(flawless("a > /* c */ b"));
    assert!(flawless("/* c */ a"));
    assert!(operand("/* c */ > a"));
    assert!(flawless("a > /"));
}

#[test]
fn open_brackets_are_unbalanced() {
    assert!(brackets("a[href"));
    assert!(brackets("a["));
    assert!(brackets("a:not(.c"));
    assert!(brackets("a:not([href)"));
    assert!(brackets("a[b]["));
    assert!(brackets("a[href=\"/x\""));
}

#[test]
fn stray_closing_brackets_are_unbalanced() {
    assert!(brackets("a]"));
    assert!(brackets(")"));
    assert!(brackets("a[b]]"));
    assert!(brackets("a][b"));
}

#[test]
fn crossed_brackets_are_unbalanced() {
    assert!(brackets("a:not([b)]"));
    assert!(brackets("a[(])"));
}

#[test]
fn brackets_are_blamed_before_combinators() {
    assert!(brackets("a[ >"));
    assert!(brackets("> a]"));
    assert!(brackets(",("));
}

#[test]
fn brackets_in_quotes_are_skipped() {
    assert!(flawless("a[href=\" > ]\"]"));
    assert!(flawless("a[title='(']"));
    assert!(flawless("a[title=\"it's [\"]"));
    assert!(brackets("a[href=\"x]"));
    assert!(brackets("a[href='x\"]"));
}

#[test]
fn escaped_characters_are_skipped() {
    assert!(flawless("a\\[b"));
    assert!(flawless("a[b=\"\\\"]\"]"));
    assert!(flawless("#a\\)"));
    assert!(brackets("a[b\\]"));
    assert!(flawless("a\\\\[b]"));
}

#[test]
fn brackets_in_comments_are_skipped() {
    assert!(flawless("a /* [ */ b"));
    assert!(flawless("a /* it's */ [b]"));
    assert!(flawless("a /***/ [b]"));
    assert!(flawless("a /*/ [b"));
    assert!(brackets("a /* */ [b"));
    assert!(brackets("a / * [ */ b"));
}

#[test]
fn scan_agrees_with_the_parser_on_short_texts() {
    let alphabet = [
        'a', ' ', '>', '+', '~', ',', '[', ']', '(', ')', '"', '\'', '\\', '/', '*', ':', '=',
        '.', '#', '|',
    ];
    let tails = [
        "]", ")", "a]", "a)", "*/]", "*/)", "\"]", "']", "\")", "')", "))", ")]", "])", "]]",
    ];
    let n = alphabet.len();
    let mut accepted = 0usize;
    for len in 0..=4usize {
        for mut code in 0..n.pow(len as u32) {
            let mut s = String::new();
            for _ in 0..len {
                s.push(alphabet[code % n]);
                code /= n;
            }
            if Selector::parse(&s).is_ok() {
                accepted += 1;
                assert!(!operand(&s), "{:?}", s);
                if brackets(&s) {
                    let closed = tails.iter().any(|tail| {
                        let longer = format!("{}{}", s, tail);
                        flawless(&longer) && Selector::parse(&longer).is_ok()
                    });
                    assert!(closed, "{:?}", s);
                }
            }
        }
    }
    assert!(accepted > 1000);
}
