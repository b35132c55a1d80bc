use mpsc_core::split::split;

#[test]
fn it_works_char() {
    let s = "a,b,c";
    let expect: Vec<_> = s.split(',').collect();
    let mut sp = split(s, ',');
    let mut res: Vec<&str> = Vec::new();
    while let Some(piece) = sp.next() {
        res.push(piece);
    }
    assert_eq!(expect, res);
}

#[test]
fn it_works_str() {
    let s = "apple>>banana>>cherry";
    let expect: Vec<_> = s.split(">>").collect();
    let mut sp = split(s, ">>");
    let mut res: Vec<&str> = Vec::new();
    while let Some(piece) = sp.next() {
        res.push(piece);
    }
    assert_eq!(expect, res);
}

#[test]
fn it_works_closure() {
    let s = "a1b2c";
    let expect: Vec<_> = s.split(|c: char| c.is_numeric()).collect();
    let mut sp = split(s, |c: char| c.is_numeric());
    let mut res: Vec<&str> = Vec::new();
    while let Some(piece) = sp.next() {
        res.push(piece);
    }
    assert_eq!(expect, res);
}

#[test]
fn delimiter_at_the_edges() {
    let s = ",a,";
    let expect: Vec<_> = s.split(',').collect();
    let mut sp = split(s, ',');
    let mut res: Vec<&str> = Vec::new();
    while let Some(piece) = sp.next() {
        res.push(piece);
    }
    assert_eq!(expect, res);
    assert_eq!(res, vec!["", "a", ""]);
}

#[test]
fn no_match_yields_whole_text() {
    let mut sp = split("plain", ';');
    assert_eq!(sp.next(), Some("plain"));
    assert_eq!(sp.next(), None);
    assert_eq!(sp.next(), None);
}
