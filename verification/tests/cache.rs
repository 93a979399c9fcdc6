use readline::cache::get_compentry;
use readline::cache::set_compentries;
use readline::cache::CandidateCache;

fn strings(items: &[&str]) -> Vec<String> {
    items.iter().map(|s| s.to_string()).collect()
}

#[test]
fn new_cache_is_idle() {
    let mut cache = CandidateCache::new();
    assert_eq!(cache.len(), 0);
    assert_eq!(cache.capacity(), 0);
    assert_eq!(get_compentry(&mut cache, 0), None);
    assert_eq!(cache.capacity(), 0);
}

#[test]
fn apples_and_apply_come_back_in_order() {
    let mut cache = CandidateCache::new();
    set_compentries(&mut cache, strings(&["apples", "apply"]));
    assert_eq!(get_compentry(&mut cache, 0), Some("apples".to_string()));
    assert_eq!(get_compentry(&mut cache, 1), Some("apply".to_string()));
    assert_eq!(get_compentry(&mut cache, 2), None);
}

#[test]
fn sequential_reads_return_every_candidate() {
    let candidates = strings(&["", "a", "ab", "été", "a b\tc", "zz", "a"]);
    let mut cache = CandidateCache::new();
    set_compentries(&mut cache, candidates.clone());
    assert_eq!(cache.len(), candidates.len());
    for (i, expected) in candidates.iter().enumerate() {
        assert_eq!(get_compentry(&mut cache, i), Some(expected.clone()));
        assert_eq!(cache.len(), candidates.len());
    }
    assert_eq!(get_compentry(&mut cache, candidates.len()), None);
    assert_eq!(cache.len(), 0);
}

#[test]
fn reading_an_index_twice_gives_the_same_candidate() {
    let mut cache = CandidateCache::new();
    set_compentries(&mut cache, strings(&["one", "two"]));
    assert_eq!(get_compentry(&mut cache, 1), Some("two".to_string()));
    assert_eq!(get_compentry(&mut cache, 1), Some("two".to_string()));
    assert_eq!(get_compentry(&mut cache, 0), Some("one".to_string()));
}

#[test]
fn exhausted_cache_stays_idle() {
    let mut cache = CandidateCache::new();
    set_compentries(&mut cache, strings(&["apples", "apply"]));
    assert_eq!(get_compentry(&mut cache, 0), Some("apples".to_string()));
    assert_eq!(get_compentry(&mut cache, 1), Some("apply".to_string()));
    assert_eq!(get_compentry(&mut cache, 2), None);
    assert_eq!(get_compentry(&mut cache, 0), None);
    assert_eq!(get_compentry(&mut cache, 1), None);
    assert_eq!(cache.len(), 0);
    assert_eq!(cache.capacity(), 2);
}

#[test]
fn early_out_of_range_read_ends_the_request() {
    let mut cache = CandidateCache::new();
    set_compentries(&mut cache, strings(&["a", "b", "c"]));
    assert_eq!(get_compentry(&mut cache, 7), None);
    assert_eq!(get_compentry(&mut cache, 0), None);
    assert_eq!(get_compentry(&mut cache, usize::MAX), None);
}

#[test]
fn shorter_request_hides_the_longer_one() {
    let mut cache = CandidateCache::new();
    set_compentries(&mut cache, strings(&["a", "b", "c", "d"]));
    assert_eq!(cache.capacity(), 4);
    set_compentries(&mut cache, strings(&["x", "y"]));
    assert_eq!(cache.len(), 2);
    assert_eq!(cache.capacity(), 4);
    assert_eq!(get_compentry(&mut cache, 0), Some("x".to_string()));
    assert_eq!(get_compentry(&mut cache, 1), Some("y".to_string()));
    assert_eq!(get_compentry(&mut cache, 2), None);
    assert_eq!(get_compentry(&mut cache, 3), None);
}

#[test]
fn stale_slot_is_not_read_right_after_a_shorter_request() {
    let mut cache = CandidateCache::new();
    set_compentries(&mut cache, strings(&["a", "b", "c"]));
    set_compentries(&mut cache, strings(&["x"]));
    assert_eq!(get_compentry(&mut cache, 1), None);
    assert_eq!(cache.capacity(), 3);
}

#[test]
fn empty_request_has_no_entry() {
    let mut cache = CandidateCache::new();
    set_compentries(&mut cache, Vec::new());
    assert_eq!(cache.len(), 0);
    assert_eq!(get_compentry(&mut cache, 0), None);
}

#[test]
fn empty_request_clears_an_earlier_one() {
    let mut cache = CandidateCache::new();
    set_compentries(&mut cache, strings(&["a", "b"]));
    set_compentries(&mut cache, Vec::new());
    assert_eq!(get_compentry(&mut cache, 0), None);
    assert_eq!(cache.capacity(), 2);
}

#[test]
fn growing_requests_grow_the_buffer_to_their_size() {
    let mut cache = CandidateCache::new();
    for size in [0usize, 1, 2, 5, 5, 17, 64] {
        let candidates: Vec<String> = (0..size).map(|i| format!("c{}", i)).collect();
        set_compentries(&mut cache, candidates.clone());
        assert_eq!(cache.len(), size);
        assert_eq!(cache.capacity(), size);
        for i in 0..size {
            assert_eq!(get_compentry(&mut cache, i), Some(candidates[i].clone()));
        }
        assert_eq!(get_compentry(&mut cache, size), None);
    }
}

#[test]
fn buffer_never_shrinks() {
    let mut cache = CandidateCache::new();
    let mut largest = 0usize;
    for size in [3usize, 1, 4, 1, 5, 9, 2, 6] {
        let candidates: Vec<String> = (0..size).map(|i| format!("{}", i * size)).collect();
        set_compentries(&mut cache, candidates.clone());
        largest = largest.max(size);
        assert_eq!(cache.capacity(), largest);
        assert_eq!(cache.len(), size);
        assert_eq!(get_compentry(&mut cache, size - 1), Some(candidates[size - 1].clone()));
        assert_eq!(get_compentry(&mut cache, size), None);
    }
}

#[test]
fn new_request_replaces_one_left_unfinished() {
    let mut cache = CandidateCache::new();
    set_compentries(&mut cache, strings(&["first", "second"]));
    assert_eq!(get_compentry(&mut cache, 0), Some("first".to_string()));
    set_compentries(&mut cache, strings(&["third"]));
    assert_eq!(get_compentry(&mut cache, 0), Some("third".to_string()));
    assert_eq!(get_compentry(&mut cache, 1), None);
}

#[test]
fn candidates_are_copies() {
    let mut cache = CandidateCache::new();
    set_compentries(&mut cache, strings(&["keep"]));
    let mut handed = get_compentry(&mut cache, 0).unwrap();
    handed.push_str("-changed");
    assert_eq!(get_compentry(&mut cache, 0), Some("keep".to_string()));
}

#[test]
fn root_names_reach_the_cache() {
    let mut cache = readline::CandidateCache::new();
    readline::set_compentries(&mut cache, strings(&["only"]));
    assert_eq!(readline::get_compentry(&mut cache, 0), Some("only".to_string()));
    assert_eq!(readline::get_compentry(&mut cache, 1), None);
}
