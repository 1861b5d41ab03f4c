use nba_stats_api::text::{normalize_name, same_text};

#[test]
fn normalize_strips_slavic_accents() {
    assert_eq!(normalize_name("Luka Dončić"), "Luka Doncic");
    assert_eq!(normalize_name("Nikola Jokić"), "Nikola Jokic");
    assert_eq!(normalize_name("Bogdan Bogdanović"), "Bogdan Bogdanovic");
}

#[test]
fn normalize_maps_uppercase_and_romance_letters() {
    assert_eq!(normalize_name("ÁÉÍÓÚ Ñ Ç Š Ž Đ Ÿ"), "AEIOU N C S Z D Y");
    assert_eq!(normalize_name("àäâã èëê ìïî òöôõ ùüû ñ ç ý ÿ đ"), "aaaa eee iii oooo uuu n c y y d");
}

#[test]
fn normalize_keeps_other_characters() {
    assert_eq!(normalize_name("LeBron James"), "LeBron James");
    assert_eq!(normalize_name(""), "");
    assert_eq!(normalize_name("Åsa Øre 東"), "Åsa Øre 東");
}

#[test]
fn normalize_is_idempotent() {
    for name in ["Luka Dončić", "Dāvis Bertāns", "Jusuf Nurkić", "Kristaps Porziņģis", ""] {
        let once = normalize_name(name);
        assert_eq!(normalize_name(&once), once);
    }
}

#[test]
fn same_text_compares_characters() {
    assert!(same_text("abc", "abc"));
    assert!(!same_text("abc", "abd"));
    assert!(!same_text("abc", "ab"));
    assert!(same_text("", ""));
}
