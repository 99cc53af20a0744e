use kg_passgen::config::{Config, GeneratorType};
use kg_passgen::validator::{validate_password, MIN_PASSWORD_LEN};

fn sgp(length: u8) -> Config {
    Config::default().with_generator_type(GeneratorType::SGP).with_length(length)
}

fn kgpg(length: u8) -> Config {
    Config::default().with_generator_type(GeneratorType::KGPG).with_length(length)
}

#[test]
fn eight_characters_with_all_classes_are_valid_under_sgp() {
    assert!(validate_password("aA1aaaaa", &sgp(8)));
    assert!(validate_password("Aa1AAAAA", &sgp(8)));
    assert!(validate_password("1aA11111", &sgp(8)));
    assert!(validate_password("zZ9#?!@$", &sgp(8)));
    assert!(validate_password("aZ0%^&*x", &sgp(8)));
}

#[test]
fn kgpg_refuses_punctuation_outside_its_table() {
    assert!(validate_password("aA1aaaaa?", &sgp(9)));
    assert!(!validate_password("aA1aaaaa?", &kgpg(9)));
    assert!(!validate_password("aA1aaaa^a", &kgpg(9)));
    assert!(!validate_password("*A1aaaaaa", &kgpg(9)));
    for symbol in ['!', '#', '%', '@', '$', '&'] {
        let candidate = format!("aA1aaaaa{}", symbol);
        assert!(validate_password(&candidate, &kgpg(9)));
        assert!(validate_password(&candidate, &sgp(9)));
    }
}

#[test]
fn each_class_is_required() {
    for config in [sgp(8), kgpg(8)] {
        assert!(!validate_password("AAAAAAA1", &config));
        assert!(!validate_password("aaaaaaa1", &config));
        assert!(!validate_password("aaaaaaaA", &config));
        assert!(validate_password("aaaaaaA1", &config));
    }
}

#[test]
fn characters_outside_the_set_are_refused() {
    for config in [sgp(8), kgpg(8)] {
        assert!(!validate_password("aA1aaaa ", &config));
        assert!(!validate_password("aA1aaaa-", &config));
        assert!(!validate_password("aA1aaaa+", &config));
        assert!(!validate_password("aA1aaaa/", &config));
        assert!(!validate_password("aA1aaaa=", &config));
        assert!(!validate_password("aA1aaaa\n", &config));
        assert!(!validate_password("aA1aaaa\u{e9}", &config));
    }
}

#[test]
fn only_the_first_length_characters_count() {
    assert!(validate_password("aA1aaaaa and then anything", &sgp(8)));
    assert!(validate_password("aA1aaaaa+/=", &kgpg(8)));
    assert!(!validate_password("aaaaaaaaA1", &sgp(8)));
    assert!(validate_password("aaaaaaaaA1", &sgp(10)));
}

#[test]
fn too_little_material_is_invalid() {
    assert!(!validate_password("aA1", &sgp(10)));
    assert!(!validate_password("aA1aaaaa", &sgp(9)));
    assert!(!validate_password("", &sgp(8)));
    assert!(!validate_password("", &sgp(0)));
}

#[test]
fn fewer_than_eight_characters_are_invalid() {
    assert_eq!(MIN_PASSWORD_LEN, 8);
    assert!(!validate_password("aA1aaaa", &sgp(7)));
    assert!(!validate_password("aA1aaaaa", &sgp(7)));
    assert!(!validate_password("aA1", &kgpg(3)));
    assert!(validate_password("aA1aaaaa", &kgpg(8)));
}

#[test]
fn longest_length_is_handled() {
    let long: String = "aA1".repeat(85);
    assert_eq!(long.len(), 255);
    assert!(validate_password(&long, &sgp(255)));
    assert!(!validate_password(&long[..254], &sgp(255)));
}
