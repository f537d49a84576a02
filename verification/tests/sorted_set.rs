use rio_rs::sorted_set::ArcSortedSet;

fn fixture() -> ArcSortedSet<&'static str> {
    let mut set = ArcSortedSet::new();
    set.add("M1", 100);
    set.add("M2", 200);
    set.add("M3", 10);
    set
}

#[test]
fn strings() {
    let mut set = ArcSortedSet::new();
    set.add("M1".to_string(), 100);
    set.add("M2".to_string(), 200);
    set.add("M3".to_string(), 10);
}

#[test]
fn subsequent_add() {
    let mut set = fixture();

    let rank = set.rank(&"M1");
    assert_eq!(rank, Some(1));

    let val = set.add("M1", 10);

    let rank = set.rank(&"M1");
    assert_eq!(rank, Some(1));

    set.add_ref(val, 100);
    let rank = set.rank(&"M1");
    assert_eq!(rank, Some(0));
}

#[test]
fn get_rank() {
    let mut set = fixture();

    let rank = set.rank(&"M2");
    assert_eq!(rank, Some(0));

    let rank = set.rank(&"M1");
    assert_eq!(rank, Some(1));

    let rank = set.rank(&"M3");
    assert_eq!(rank, Some(2));

    let rank = set.rank(&"Member 4");
    assert!(rank.is_none())
}

#[test]
fn get_score() {
    let mut set = fixture();

    let score = set.score(&"M2");
    assert_eq!(score, Some(200));

    let score = set.score(&"M1");
    assert_eq!(score, Some(100));

    let score = set.score(&"M3");
    assert_eq!(score, Some(10));

    let rank = set.rank(&"Member 4");
    assert!(rank.is_none())
}

#[test]
fn iter() {
    let set = fixture();
    let mut iter = set.iter().into_iter();

    let test_ = |x: (&&str, &usize)| {
        if x.0 == &"M1" {
            assert_eq!(x.1, &100);
        }

        if x.0 == &"M2" {
            assert_eq!(x.1, &200);
        }

        if x.0 == &"M3" {
            assert_eq!(x.1, &10);
        }
    };

    test_(iter.next().unwrap());
    test_(iter.next().unwrap());
    test_(iter.next().unwrap());
    assert!(iter.next().is_none());
}

#[test]
fn iter_rank_goes_from_lowest_to_highest() {
    let set = fixture();
    let ranked: Vec<&str> = set.iter_rank().into_iter().copied().collect();
    assert_eq!(ranked, vec!["M3", "M1", "M2"]);
}

#[test]
fn equal_scores_share_rank_and_order_by_key() {
    let mut set = ArcSortedSet::new();
    set.add("b", 5);
    set.add("a", 5);
    set.add("c", 1);
    assert_eq!(set.rank(&"a"), Some(1));
    assert_eq!(set.rank(&"b"), Some(1));
    assert_eq!(set.rank(&"c"), Some(2));
    let ranked: Vec<&str> = set.iter_rank().into_iter().copied().collect();
    assert_eq!(ranked, vec!["c", "a", "b"]);
}

#[test]
fn add_accumulates_score() {
    let mut set = ArcSortedSet::new();
    set.add("x".to_string(), 7);
    let shared = set.add("x".to_string(), 5);
    assert_eq!(set.score(&"x".to_string()), Some(12));
    set.add_ref(shared, 1);
    assert_eq!(set.score(&"x".to_string()), Some(13));
    assert_eq!(set.iter().len(), 1);
    assert_eq!(set.score(&"y".to_string()), None);
}

#[test]
fn empty_set_has_no_ranks() {
    let mut set: ArcSortedSet<String> = ArcSortedSet::new();
    assert_eq!(set.rank(&"x".to_string()), None);
    assert!(set.iter().is_empty());
    assert!(set.iter_rank().is_empty());
}
