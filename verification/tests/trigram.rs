use ngram_iter::Iter;
use ngram_iter::WORD_JOINER;

#[test]
fn trigram_test_empty_iter() {
    let mut subj: Iter<char, 3> = "".chars().collect::<Vec<char>>().into();
    assert!(subj.next().unwrap().is_none());
}

#[test]
fn trigram_test_one_item() {
    let mut subj: Iter<char, 3> = "1".chars().collect::<Vec<char>>().into();
    assert_eq!(subj.next(), Ok(Some(vec![WORD_JOINER, '1', WORD_JOINER])));
    assert!(subj.next().unwrap().is_none());
}

#[test]
fn trigram_test_two_items() {
    let mut subj: Iter<char, 3> = "12".chars().collect::<Vec<char>>().into();
    assert_eq!(subj.next(), Ok(Some(vec![WORD_JOINER, '1', '2'])));
    assert_eq!(subj.next(), Ok(Some(vec!['2', WORD_JOINER, WORD_JOINER])));
    assert!(subj.next().unwrap().is_none());
}

#[test]
fn three_items() {
    let mut subj: Iter<char, 3> = "123".chars().collect::<Vec<char>>().into();
    assert_eq!(subj.next(), Ok(Some(vec![WORD_JOINER, '1', '2'])));
    assert_eq!(subj.next(), Ok(Some(vec!['2', '3', WORD_JOINER])));
    assert!(subj.next().unwrap().is_none());
}

#[test]
fn trigram_test_four_items() {
    let mut subj: Iter<char, 3> = "1234".chars().collect::<Vec<char>>().into();
    assert_eq!(subj.next(), Ok(Some(vec![WORD_JOINER, '1', '2'])));
    assert_eq!(subj.next(), Ok(Some(vec!['2', '3', '4'])));
    assert_eq!(subj.next(), Ok(Some(vec!['4', WORD_JOINER, WORD_JOINER])));
    assert!(subj.next().unwrap().is_none());
}

#[test]
fn five_items() {
    let mut subj: Iter<char, 3> = "12345".chars().collect::<Vec<char>>().into();
    assert_eq!(subj.next(), Ok(Some(vec![WORD_JOINER, '1', '2'])));
    assert_eq!(subj.next(), Ok(Some(vec!['2', '3', '4'])));
    assert_eq!(subj.next(), Ok(Some(vec!['4', '5', WORD_JOINER])));
    assert!(subj.next().unwrap().is_none());
}
