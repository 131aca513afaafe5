use v8_rs::literal::parse_literal;

fn expected(text: &str) -> u64 {
    text.parse::<f64>().unwrap_or(0.0).to_bits()
}

fn parsed(text: &str) -> u64 {
    let chars: Vec<char> = text.chars().collect();
    parse_literal(&chars)
}

#[test]
fn test_literals_match_the_standard_parser() {
    for text in [
        "0",
        "1",
        "2",
        "10",
        "42",
        "3.14",
        "6.28",
        "0.1",
        "0.2",
        "0.3",
        "0.5",
        "1.",
        "0.",
        "0.0",
        "000.000",
        "007",
        "100",
        "15",
        "123456789",
        "1234567890123456789",
        "12345678901234567890",
        "123456789012345678901234567890",
        "9007199254740992",
        "9007199254740993",
        "9007199254740994",
        "9007199254740995",
        "18014398509481985",
        "0.1234567890123456789012345678901234567890",
        "1.7976931348623157",
        "2.2250738585072014",
        "4.9406564584124654",
        "0.000000000000000000000000000000000000000000000000000000000000001",
        "179769313486231570000000000000000000000000000000000000000000000000000000000000000000000000000000000000000000000000000000000000000000000000000000000000000000000000000000000000000000000000000000000000000000000000000000000000000000000000000000000000000000000000000000000000000000000000000000000000000000000000000000000000",
        "179769313486231580793728971405303415079934132710037826936173778980444968292764750946649017977587207096330286416692887910946555547851940402630657488671505820681908902000708383676273854845817711531764475730270069855571366959622842914819860834936475292719074168444365510704342711559699508093042880177904174497791",
        "179769313486231580793728971405303415079934132710037826936173778980444968292764750946649017977587207096330286416692887910946555547851940402630657488671505820681908902000708383676273854845817711531764475730270069855571366959622842914819860834936475292719074168444365510704342711559699508093042880177904174497792",
        "1.1.1",
        "1..2",
        "..",
        ".",
        "",
    ] {
        assert_eq!(parsed(text), expected(text), "{}", text);
    }
}

#[test]
fn test_tiny_and_huge_literals() {
    let mut tiny = String::from("0.");
    for _ in 0..400 {
        tiny.push('0');
    }
    tiny.push_str("123");
    assert_eq!(parsed(&tiny), 0);
    assert_eq!(parsed(&tiny), expected(&tiny));

    let mut subnormal = String::from("0.");
    for _ in 0..310 {
        subnormal.push('0');
    }
    subnormal.push_str("49");
    assert_eq!(parsed(&subnormal), expected(&subnormal));

    let mut least = String::from("0.");
    for _ in 0..323 {
        least.push('0');
    }
    least.push_str("25");
    assert_eq!(parsed(&least), expected(&least));
    least.push_str("000000000000000000000001");
    assert_eq!(parsed(&least), expected(&least));

    let mut huge = String::from("1");
    for _ in 0..400 {
        huge.push('0');
    }
    assert_eq!(parsed(&huge), f64::INFINITY.to_bits());
    let mut large = String::from("17");
    for _ in 0..307 {
        large.push('0');
    }
    assert_eq!(parsed(&large), expected(&large));
}

#[test]
fn test_random_literals_match_the_standard_parser() {
    let mut state: u64 = 0x2545_F491_4F6C_DD1D;
    let mut count = 0;
    while count < 3000 {
        state = state.wrapping_mul(6364136223846793005).wrapping_add(1442695040888963407);
        let whole = 1 + (state >> 59) as usize % 25;
        state = state.wrapping_mul(6364136223846793005).wrapping_add(1442695040888963407);
        let fraction = (state >> 58) as usize % 30;
        let mut text = String::new();
        for _ in 0..whole {
            state = state.wrapping_mul(6364136223846793005).wrapping_add(1442695040888963407);
            text.push((b'0' + ((state >> 33) % 10) as u8) as char);
        }
        if fraction > 0 {
            text.push('.');
            for _ in 0..fraction {
                state = state.wrapping_mul(6364136223846793005).wrapping_add(1442695040888963407);
                text.push((b'0' + ((state >> 33) % 10) as u8) as char);
            }
        }
        assert_eq!(parsed(&text), expected(&text), "{}", text);
        count += 1;
    }
}

#[test]
fn test_halfway_literals_round_to_even() {
    // 2^53 + 1 lies halfway between two numbers; so do these.
    assert_eq!(parsed("9007199254740993"), 9007199254740992.0f64.to_bits());
    assert_eq!(parsed("9007199254740995"), 9007199254740996.0f64.to_bits());
    assert_eq!(parsed("9007199254740993.0000000000000000000000000001"), 9007199254740994.0f64.to_bits());
    assert_eq!(parsed("0.5"), 0.5f64.to_bits());
    assert_eq!(parsed("42"), 42.0f64.to_bits());
    assert_eq!(parsed("3.14"), 3.14f64.to_bits());
}
