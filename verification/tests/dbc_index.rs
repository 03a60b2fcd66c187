use iongateway::catalog::parse_dbc;

#[test]
fn name_index_maps_declared_message() {
    let text = b"BO_ 100 EngineData: 8 ECU1\n SG_ rpm : 0|16@1+ (1,0) [0|65535] \"rpm\" ECU2\n";
    let (names, ids, _catalog) = parse_dbc(text);
    assert_eq!(names.lookup(b"EngineData"), Some(100 & 0x1FFF_FFFF));
    let signals = ids.get(100).expect("identifier is indexed");
    assert_eq!(signals.len(), 1);
    assert_eq!(signals[0], "rpm");
}

#[test]
fn declared_identifier_is_masked_to_extended_form() {
    let text = b"BO_ 2147483904 vcu_pkt: 8 ECU1\n";
    let (names, ids, _catalog) = parse_dbc(text);
    // 2147483904 is 0x80000100; the flag bit is stripped.
    assert_eq!(names.lookup(b"vcu_pkt"), Some(0x100));
    assert!(ids.get(0x100).is_some());
    assert!(ids.get(0x8000_0100u32).is_none());
}

#[test]
fn malformed_id_lines_are_skipped() {
    let text = b"BO_ notanumber Bad: 8 ECU\nBO_ 4294967296 TooBig: 8 ECU\nBO_ 7 Good: 8 ECU\n";
    let (names, _ids, _catalog) = parse_dbc(text);
    assert_eq!(names.lookup(b"Bad"), None);
    assert_eq!(names.lookup(b"Bad:"), None);
    assert_eq!(names.lookup(b"TooBig"), None);
    assert_eq!(names.lookup(b"Good"), Some(7));
}

#[test]
fn empty_text_yields_empty_index() {
    let (names, ids, _catalog) = parse_dbc(b"");
    assert_eq!(names.len(), 0);
    assert_eq!(names.lookup(b"anything"), None);
    assert!(ids.get(0).is_none());
}

#[test]
fn later_declaration_of_a_name_wins() {
    let text = b"BO_ 5 Twice: 8 A\nBO_ 9 Twice: 8 B\n";
    let (names, _ids, _catalog) = parse_dbc(text);
    assert_eq!(names.lookup(b"Twice"), Some(9));
}

#[test]
fn signals_beyond_the_frame_window_are_not_indexed() {
    let text =
        b"BO_ 3 Wide: 8 A\n SG_ narrow : 0|8@1+ (1,0) [0|255] \"V\" B\n SG_ wide : 0|64@1+ (1,0) [0|1] \"V\" B\n";
    let (_names, ids, _catalog) = parse_dbc(text);
    let signals = ids.get(3).expect("identifier is indexed");
    assert_eq!(signals.len(), 1);
    assert_eq!(signals[0], "narrow");
}

#[test]
fn signal_lines_without_an_open_message_are_dropped() {
    let text = b" SG_ stray : 0|8@1+ (1,0) [0|255] \"V\" B\nBO_ 4 Msg: 8 A\n";
    let (_names, ids, _catalog) = parse_dbc(text);
    let signals = ids.get(4).expect("identifier is indexed");
    assert_eq!(signals.len(), 0);
}

#[test]
fn windows_line_endings_are_tolerated() {
    let text = b"BO_ 11 CrLf: 8 A\r\n SG_ s1 : 0|8@1+ (1,0) [0|255] \"V\" B\r\n";
    let (names, ids, _catalog) = parse_dbc(text);
    assert_eq!(names.lookup(b"CrLf"), Some(11));
    let signals = ids.get(11).expect("identifier is indexed");
    assert_eq!(signals.len(), 1);
}
