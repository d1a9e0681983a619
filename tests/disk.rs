use ollama_pro::disk::pick_disk;

#[test]
fn longest_matching_mount_point_wins() {
    // "/", "/home", "/home/me/data" where the path lies under all three.
    assert_eq!(pick_disk(&vec![(true, 1), (true, 5), (true, 13)]), Some(2));
    assert_eq!(pick_disk(&vec![(true, 13), (false, 20), (true, 1)]), Some(0));
}

#[test]
fn first_of_equal_lengths_wins() {
    assert_eq!(pick_disk(&vec![(false, 9), (true, 4), (true, 4)]), Some(1));
}

#[test]
fn no_match_falls_back_to_first_disk() {
    assert_eq!(pick_disk(&vec![(false, 1), (false, 5)]), Some(0));
    assert_eq!(pick_disk(&vec![(true, 0), (false, 5)]), Some(0));
    assert_eq!(pick_disk(&Vec::new()), None);
}
