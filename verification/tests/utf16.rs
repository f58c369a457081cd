use com_notifier::lifecycle::watcher_class_name;
use com_notifier::registry::serialcomm_key;
use com_notifier::utf16::{text_of_buffer, text_of_wide, wide_nul};

fn bytes(units: &[u16]) -> Vec<u8> {
    units.iter().flat_map(|u| u.to_le_bytes()).collect()
}

#[test]
fn wide_nul_ends_in_nul() {
    assert_eq!(wide_nul(""), vec![0]);
    assert_eq!(wide_nul("COM3"), vec![67, 79, 77, 51, 0]);
    assert_eq!(wide_nul("\u{FFFF}"), vec![0xFFFF, 0]);
    assert_eq!(wide_nul("\u{10000}"), vec![0xD800, 0xDC00, 0]);
    assert_eq!(wide_nul("😀"), vec![0xD83D, 0xDE00, 0]);
    assert_eq!(wide_nul("\u{10FFFF}"), vec![0xDBFF, 0xDFFF, 0]);
}

#[test]
fn wide_nul_agrees_with_std() {
    for s in ["COM3", "é", "Порт", "a😀b", "\u{D7FF}\u{E000}", "x\0y"] {
        let mut expected: Vec<u16> = s.encode_utf16().collect();
        expected.push(0);
        assert_eq!(wide_nul(s), expected);
    }
}

#[test]
fn win32_names() {
    let text = |wide: Vec<u16>| text_of_wide(&wide[..wide.len() - 1]);
    assert_eq!(text(watcher_class_name()), "ComPortWatcher");
    assert_eq!(watcher_class_name().len(), 15);
    assert_eq!(text(serialcomm_key()), "HARDWARE\\DEVICEMAP\\SERIALCOMM");
    assert_eq!(serialcomm_key().last(), Some(&0));
}

#[test]
fn unpaired_surrogates_become_replacement_characters() {
    assert_eq!(text_of_wide(&[0xD83D, 0xDE00]), "😀");
    assert_eq!(text_of_wide(&[0xD83D]), "\u{FFFD}");
    assert_eq!(text_of_wide(&[0xDE00, 0xD83D]), "\u{FFFD}\u{FFFD}");
    assert_eq!(text_of_wide(&[0xD83D, 0xD83D, 0xDE00, 65]), "\u{FFFD}😀A");
    assert_eq!(text_of_wide(&[0xD83D, 65]), "\u{FFFD}A");
}

#[test]
fn decoding_agrees_with_std() {
    let edges: [u16; 9] = [0, 65, 0xD7FF, 0xD800, 0xDBFF, 0xDC00, 0xDFFF, 0xE000, 0xFFFF];
    for a in edges {
        for b in edges {
            for c in edges {
                let units = [a, b, c];
                assert_eq!(text_of_wide(&units), String::from_utf16_lossy(&units));
            }
        }
    }
}

#[test]
fn buffer_ends_at_the_first_nul() {
    assert_eq!(text_of_buffer(&[67, 0, 79, 0, 77, 0, 51, 0, 0, 0]), "COM3");
    assert_eq!(text_of_buffer(&[67, 0, 0, 0, 51, 0]), "C");
    assert_eq!(text_of_buffer(&[67, 0, 51, 0]), "C3");
    assert_eq!(text_of_buffer(&[67, 0, 51]), "C");
    assert_eq!(text_of_buffer(&[0, 1]), "\u{100}");
    assert_eq!(text_of_buffer(&[]), "");
}

#[test]
fn buffer_reads_back_what_was_written() {
    for s in ["COM3", "COM256", "Порт 7", "😀"] {
        let mut units = wide_nul(s);
        assert_eq!(text_of_buffer(&bytes(&units)), s);
        units.extend([88, 89]);
        assert_eq!(text_of_buffer(&bytes(&units)), s);
        let bare: Vec<u16> = s.encode_utf16().collect();
        assert_eq!(text_of_buffer(&bytes(&bare)), s);
    }
}
