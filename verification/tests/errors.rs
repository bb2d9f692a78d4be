use arcon_state::error::faster_format;

#[test]
fn faster_format_names_every_status() {
    assert_eq!(faster_format(&0), "OK");
    assert_eq!(faster_format(&1), "PENDING");
    assert_eq!(faster_format(&2), "NOT_FOUND");
    assert_eq!(faster_format(&3), "OUT_OF_MEMORY");
    assert_eq!(faster_format(&4), "IO_ERROR");
    assert_eq!(faster_format(&5), "CORRUPTION");
    assert_eq!(faster_format(&6), "ABORTED");
    assert_eq!(faster_format(&7), "?");
    assert_eq!(faster_format(&255), "?");
}
