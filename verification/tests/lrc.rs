use verso::lrc::{parse_lrc, Lyrics};

#[test]
fn parses_timestamp_formats() {
    let l = parse_lrc("[00:01.50]dois dígitos\n[00:02.250]três dígitos\n[00:03]sem fração\n[01:04.5]um dígito");
    let t: Vec<u64> = l.lines.iter().map(|x| x.time_ms).collect();
    assert_eq!(t, vec![1500, 2250, 3000, 64500]);
    assert_eq!(l.lines[0].text, "dois dígitos");
}

#[test]
fn multiple_tags_on_one_line_are_sorted() {
    let l = parse_lrc("[00:10.00][00:02.00]refrão inventado\n[00:05.00]verso");
    let got: Vec<(u64, &str)> = l.lines.iter().map(|x| (x.time_ms, x.text.as_str())).collect();
    assert_eq!(got, vec![(2000, "refrão inventado"), (5000, "verso"), (10000, "refrão inventado")]);
}

#[test]
fn ignores_metadata_and_garbage() {
    let l = parse_lrc("[ar:Banda Fictícia]\n[ti:Canção Teste]\n[offset:+100]\nlinha sem tag\n[xx:yy]lixo\n[00:01.00]ok");
    assert_eq!(l.lines.len(), 1);
    assert_eq!(l.lines[0].text, "ok");
}

#[test]
fn keeps_empty_lines_and_handles_crlf() {
    let l = parse_lrc("[00:01.00]primeira\r\n[00:04.00]\r\n[00:06.00] terceira ");
    assert_eq!(l.lines.len(), 3);
    assert_eq!(l.lines[1].text, "");
    assert_eq!(l.lines[2].text, "terceira");
}

#[test]
fn rejects_invalid_seconds_and_signs() {
    let l = parse_lrc("[00:75.00]segundos demais\n[+1:02.00]sinal\n[00:02.1234]fração longa\n[00:03.00]válida");
    assert_eq!(l.texts(), vec!["válida".to_string()]);
}

#[test]
fn empty_input() {
    assert!(parse_lrc("").lines.is_empty());
}

#[test]
fn line_at_boundaries() {
    let l = parse_lrc("[00:01.00]a\n[00:05.00]b\n[00:09.00]c");
    assert_eq!(l.line_at(0), None);
    assert_eq!(l.line_at(999), None);
    assert_eq!(l.line_at(1000), Some(0));
    assert_eq!(l.line_at(4999), Some(0));
    assert_eq!(l.line_at(5000), Some(1));
    assert_eq!(l.line_at(600_000), Some(2));
    assert_eq!(Lyrics::default().line_at(1000), None);
}

#[test]
fn line_at_with_duplicate_timestamps_picks_last() {
    let l = parse_lrc("[00:02.00]x\n[00:02.00]y\n[00:04.00]z");
    assert_eq!(l.line_at(2500), Some(1));
}

#[test]
fn oversized_timestamp_is_a_malformed_tag() {
    let l = parse_lrc("[99999999999999999:00]grande demais\n[00:01.00]ok");
    assert_eq!(l.texts(), vec!["ok".to_string()]);
    let l = parse_lrc("[307445734561825:51.616]passa\n[307445734561825:51.615]cabe");
    assert_eq!(l.lines.len(), 1);
    assert_eq!(l.lines[0].time_ms, u64::MAX);
    assert_eq!(l.lines[0].text, "cabe");
    // the run of tags ends at the malformed one
    let l = parse_lrc("[00:01.00][99999999999999999:00][00:02.00]x");
    assert_eq!(l.lines.len(), 1);
    assert_eq!(l.lines[0].time_ms, 1000);
    assert_eq!(l.lines[0].text, "[99999999999999999:00][00:02.00]x");
}
