use pgblade::connection_form::{connection_name, port_or_default, DEFAULT_PORT};

fn std_port(s: &str) -> u16 {
    s.parse().unwrap_or(5432)
}

#[test]
fn port_field_is_read_as_a_number() {
    assert_eq!(port_or_default("5432"), 5432);
    assert_eq!(port_or_default("6543"), 6543);
    assert_eq!(port_or_default("+80"), 80);
    assert_eq!(port_or_default("0080"), 80);
    assert_eq!(port_or_default("65535"), 65535);
    assert_eq!(port_or_default("0"), 0);
}

#[test]
fn port_field_falls_back_to_the_default() {
    assert_eq!(DEFAULT_PORT, 5432);
    for s in ["", "+", "-1", "65536", "99999999999", " 80", "80 ", "8_0", "abc", "++1", "1e3"] {
        assert_eq!(port_or_default(s), 5432, "{:?}", s);
    }
}

#[test]
fn port_field_agrees_with_std_parsing() {
    let alphabet = ['0', '1', '5', '9', '+', '-', ' ', 'a', '_'];
    let mut inputs = vec![String::new()];
    for len in 1..=4 {
        let mut next = Vec::new();
        for s in inputs.iter().filter(|s| s.chars().count() == len - 1) {
            for c in alphabet {
                let mut t = s.clone();
                t.push(c);
                next.push(t);
            }
        }
        inputs.extend(next);
    }
    for n in [65530u32, 65535, 65536, 70000, 100000] {
        inputs.push(n.to_string());
        inputs.push(format!("+{n}"));
        inputs.push(format!("000{n}"));
    }
    for s in &inputs {
        assert_eq!(port_or_default(s), std_port(s), "{:?}", s);
    }
}

#[test]
fn connections_are_named_database_at_host() {
    assert_eq!(connection_name("postgres", "localhost"), "postgres@localhost");
    assert_eq!(connection_name("", "db.internal"), "@db.internal");
}
