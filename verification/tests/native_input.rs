use octoweb::native_input::{
    key_event_flags, key_info, modifier_flags, type_text_keys, us_key_code, us_layout,
    FLAG_COMMAND, FLAG_CONTROL, FLAG_OPTION, FLAG_SHIFT,
};

#[test]
fn special_keys_map_to_carbon_codes() {
    assert_eq!(key_info("Enter").unwrap().code, 36);
    assert_eq!(key_info("Enter").unwrap().chars, "\r");
    assert_eq!(key_info("Escape").unwrap().code, 53);
    assert_eq!(key_info("Tab").unwrap().chars, "\t");
    assert_eq!(key_info("ArrowDown").unwrap().chars, "\u{F701}");
    assert_eq!(key_info("F5").unwrap().code, 96);
    assert_eq!(key_info("F5").unwrap().chars, "\u{F708}");
    assert_eq!(key_info("Space").unwrap().code, 49);
}

#[test]
fn printable_characters_carry_shift_state() {
    let a = key_info("a").unwrap();
    assert_eq!((a.code, a.shift, a.base_chars.as_str()), (0, false, "a"));
    let upper = key_info("A").unwrap();
    assert_eq!(
        (upper.code, upper.shift, upper.base_chars.as_str()),
        (0, true, "a")
    );
    let bang = key_info("!").unwrap();
    assert_eq!(
        (bang.code, bang.shift, bang.base_chars.as_str()),
        (18, true, "1")
    );
    assert_eq!(key_info("é").unwrap().code, 0);
}

#[test]
fn unknown_keys_are_rejected() {
    assert!(key_info("").is_none());
    assert!(key_info(" \"").is_none());
    assert!(key_info("Entr").is_none());
    assert!(key_info("F13").is_none());
}

#[test]
fn modifier_flags_combine() {
    let m = |s: &[&str]| modifier_flags(&s.iter().map(|x| x.to_string()).collect::<Vec<_>>());
    assert_eq!(m(&["shift"]), FLAG_SHIFT);
    assert_eq!(m(&["ctrl", "meta"]), FLAG_CONTROL | FLAG_COMMAND);
    assert_eq!(m(&["alt", "bogus"]), FLAG_OPTION);
}

#[test]
fn function_keys_and_lone_f() {
    assert_eq!(key_info("F1").unwrap().code, 122);
    assert_eq!(key_info("F12").unwrap().chars, "\u{F70F}");
    assert_eq!(key_info("F+3").unwrap().code, 99);
    assert_eq!(key_info("F03").unwrap().code, 99);
    assert!(key_info("F0").is_none());
    assert!(key_info("F99999999999").is_none());
    let f = key_info("F").unwrap();
    assert_eq!((f.code, f.shift, f.base_chars.as_str()), (3, true, "f"));
}

#[test]
fn layout_and_codes() {
    assert_eq!(us_layout('?'), ('/', true));
    assert_eq!(us_layout('~'), ('`', true));
    assert_eq!(us_layout('z'), ('z', false));
    assert_eq!(us_key_code('/'), 44);
    assert_eq!(us_key_code('ß'), 0);
}

#[test]
fn typing_maps_newlines_and_drops_carriage_returns() {
    let keys = type_text_keys("a\r\nB\t");
    let codes: Vec<u16> = keys.iter().map(|k| k.code).collect();
    assert_eq!(codes, vec![0, 36, 11, 48]);
    assert!(keys[2].shift);
    let flags = key_event_flags(&keys[2], &["cmd".to_string()]);
    assert_eq!(flags, FLAG_COMMAND | FLAG_SHIFT);
    assert_eq!(modifier_flags(&[]), 0);
    assert_eq!(modifier_flags(&["control".to_string(), "option".to_string()]), FLAG_CONTROL | FLAG_OPTION);
}

#[test]
fn single_characters_use_their_base_key() {
    let a = key_info("A").unwrap();
    assert!(a.shift);
    assert_eq!(a.chars, "A");
    assert_eq!(a.base_chars, "a");
    assert_eq!(a.code, key_info("a").unwrap().code);
    let bang = key_info("!").unwrap();
    assert!(bang.shift);
    assert_eq!(bang.code, key_info(&bang.base_chars).unwrap().code);
    let x = key_info("x").unwrap();
    assert!(!x.shift);
    assert_eq!(x.base_chars, "x");
}

#[test]
fn modifier_flags_of_a_concatenation_are_ored() {
    let a = vec!["shift".to_string(), "bogus".to_string()];
    let b = vec!["cmd".to_string()];
    let ab: Vec<String> = a.iter().chain(b.iter()).cloned().collect();
    assert_eq!(modifier_flags(&ab), modifier_flags(&a) | modifier_flags(&b));
    assert_eq!(modifier_flags(&[]), 0);
    let all = FLAG_SHIFT | FLAG_CONTROL | FLAG_OPTION | FLAG_COMMAND;
    assert_eq!(modifier_flags(&ab) & !all, 0);
}
