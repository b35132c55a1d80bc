use mpsc_core::flatten::Flatten;
use mpsc_core::flatten::IteratorExt;

#[test]
fn it_works() {
    let data = vec![vec![1, 2, 3, 4], vec![5, 6]];
    let same_data = vec![vec![1, 2, 3, 4], vec![5, 6]];
    let expect: Vec<u8> = data.into_iter().flatten().collect();
    let mut it = same_data.my_flatten();
    let mut res: Vec<u8> = Vec::new();
    while let Some(x) = it.next() {
        res.push(x);
    }
    assert_eq!(expect, res);
}

#[test]
fn empty() {
    let mut it = Vec::<Vec<()>>::new().my_flatten();
    let mut count = 0;
    while let Some(_) = it.next() {
        count += 1;
    }
    assert_eq!(count, 0);
}

#[test]
fn reverse() {
    let mut it = vec![vec!["a", "b"]].my_flatten();
    let mut res: Vec<&str> = Vec::new();
    while let Some(x) = it.next_back() {
        res.push(x);
    }
    assert_eq!(res, vec!["b", "a"]);
}

#[test]
fn both_ends() {
    let mut iter0 = vec![vec!["a1", "a2", "a3"], vec!["b1", "b2", "b3"]].my_flatten();
    let mut iter1 = vec![vec!["a1", "a2", "a3"], vec!["b1", "b2", "b3"]]
        .into_iter()
        .flatten();
    assert_eq!(iter0.next(), iter1.next());
    assert_eq!(iter0.next_back(), iter1.next_back());
    assert_eq!(iter0.next(), iter1.next());
    assert_eq!(iter0.next_back(), iter1.next_back());
    assert_eq!(iter0.next(), iter1.next());
    assert_eq!(iter0.next_back(), iter1.next_back());
    assert_eq!(iter0.next(), iter1.next());
    assert_eq!(iter0.next_back(), iter1.next_back());
}

#[test]
fn empty_segments_are_skipped() {
    let mut it: Flatten<u32> = Flatten::new(vec![vec![], vec![1], vec![], vec![2, 3], vec![]]);
    assert_eq!(it.next(), Some(1));
    assert_eq!(it.next_back(), Some(3));
    assert_eq!(it.next(), Some(2));
    assert_eq!(it.next(), None);
    assert_eq!(it.next_back(), None);
}
