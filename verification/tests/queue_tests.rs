use ncspot::playable::Playable;
use ncspot::queue::PlayerCommand;
use ncspot::queue::Queue;
use ncspot::queue::QueueEvent;
use ncspot::queue::RepeatSetting;
use ncspot::worker::PlayerEvent;

fn track(id: u64) -> Playable {
    Playable::new(id)
}

fn tracks(ids: &[u64]) -> Vec<Playable> {
    let mut v = Vec::new();
    for id in ids {
        v.push(track(*id));
    }
    v
}

fn linear_queue(ids: &[u64], current: Option<usize>, repeat: RepeatSetting) -> Queue {
    Queue::new(tracks(ids), current, None, false, repeat)
}

fn sorted_order(q: &Queue) -> Vec<usize> {
    let mut order = q.get_random_order().expect("shuffle should be on");
    order.sort();
    order
}

fn identity(n: usize) -> Vec<usize> {
    let mut v = Vec::new();
    let mut i = 0;
    while i < n {
        v.push(i);
        i += 1;
    }
    v
}

#[test]
fn linear_next_then_previous() {
    // Track list [A, B, C], shuffle off, current 0.
    let mut q = linear_queue(&[1, 2, 3], Some(0), RepeatSetting::Off);
    let cmd = q.next(false);
    assert_eq!(cmd, Some(PlayerCommand::Load(track(2))));
    assert_eq!(q.get_current_index(), Some(1));
    let cmd = q.previous();
    assert_eq!(cmd, Some(PlayerCommand::Load(track(1))));
    assert_eq!(q.get_current_index(), Some(0));
}

#[test]
fn next_wraps_under_playlist_repeat() {
    // Current at the last item; playlist repeat wraps to index 0.
    let mut q = linear_queue(&[1, 2, 3], Some(2), RepeatSetting::RepeatPlaylist);
    let cmd = q.next(false);
    assert_eq!(cmd, Some(PlayerCommand::Load(track(1))));
    assert_eq!(q.get_current_index(), Some(0));
}

#[test]
fn remove_below_current_pulls_position_back() {
    let mut q = linear_queue(&[1, 2, 3], Some(1), RepeatSetting::Off);
    let cmd = q.remove(0);
    assert_eq!(cmd, None);
    assert_eq!(q.get_current_index(), Some(0));
    assert_eq!(q.get_current(), Some(track(2)));
    assert_eq!(q.len(), 2);
}

#[test]
fn append_next_inserts_after_current() {
    let mut q = linear_queue(&[1, 2, 3], Some(0), RepeatSetting::Off);
    let first = q.append_next(&tracks(&[10, 11]));
    assert_eq!(first, 1);
    assert_eq!(q.queue, tracks(&[1, 10, 11, 2, 3]));
    assert_eq!(q.get_current_index(), Some(0));
}

#[test]
fn append_next_with_nothing_playing_appends() {
    let mut q = linear_queue(&[1, 2], None, RepeatSetting::Off);
    let first = q.append_next(&tracks(&[10]));
    assert_eq!(first, 2);
    assert_eq!(q.queue, tracks(&[1, 2, 10]));
}

#[test]
fn remove_last_remaining_item_stops() {
    let mut q = linear_queue(&[7], Some(0), RepeatSetting::Off);
    let cmd = q.remove(0);
    assert_eq!(cmd, Some(PlayerCommand::Stop));
    assert_eq!(q.get_current_index(), None);
    assert_eq!(q.len(), 0);
}

#[test]
fn remove_playing_item_plays_slid_in_item() {
    let mut q = linear_queue(&[1, 2, 3], Some(1), RepeatSetting::Off);
    let cmd = q.remove(1);
    assert_eq!(cmd, Some(PlayerCommand::Load(track(3))));
    assert_eq!(q.get_current_index(), Some(1));
}

#[test]
fn remove_playing_last_item_stops_without_repeat() {
    let mut q = linear_queue(&[1, 2], Some(1), RepeatSetting::Off);
    let cmd = q.remove(1);
    assert_eq!(cmd, Some(PlayerCommand::Stop));
    assert_eq!(q.get_current_index(), None);
}

#[test]
fn remove_playing_last_item_advances_under_playlist_repeat() {
    let mut q = linear_queue(&[1, 2], Some(1), RepeatSetting::RepeatPlaylist);
    let cmd = q.remove(1);
    assert_eq!(cmd, Some(PlayerCommand::Load(track(1))));
    assert_eq!(q.get_current_index(), Some(0));
}

#[test]
fn remove_on_empty_list_is_a_no_op() {
    let mut q = linear_queue(&[], None, RepeatSetting::Off);
    let cmd = q.remove(0);
    assert_eq!(cmd, None);
    assert_eq!(q.len(), 0);
}

#[test]
fn shift_round_trip_restores_order() {
    let mut q = linear_queue(&[1, 2, 3, 4], None, RepeatSetting::Off);
    q.shift(0, 2);
    assert_eq!(q.queue, tracks(&[2, 3, 1, 4]));
    q.shift(2, 0);
    assert_eq!(q.queue, tracks(&[1, 2, 3, 4]));
}

#[test]
fn shift_remaps_current_position() {
    // Current follows the item it names.
    let mut q = linear_queue(&[1, 2, 3], Some(0), RepeatSetting::Off);
    q.shift(0, 2);
    assert_eq!(q.get_current_index(), Some(2));
    assert_eq!(q.get_current(), Some(track(1)));

    // A backward move over the current position pushes it up by one.
    let mut q = linear_queue(&[1, 2, 3], Some(0), RepeatSetting::Off);
    q.shift(2, 0);
    assert_eq!(q.get_current_index(), Some(1));
    assert_eq!(q.get_current(), Some(track(1)));

    // A forward move over the current position pulls it down by one.
    let mut q = linear_queue(&[1, 2, 3], Some(2), RepeatSetting::Off);
    q.shift(0, 2);
    assert_eq!(q.get_current_index(), Some(1));
    assert_eq!(q.get_current(), Some(track(3)));
}

#[test]
fn double_shuffle_toggle_keeps_bijection_and_current_first() {
    let mut q = linear_queue(&[1, 2, 3, 4, 5], Some(2), RepeatSetting::Off);
    q.set_shuffle(false);
    q.set_shuffle(true);
    q.set_shuffle(false);
    q.set_shuffle(true);
    let order = q.get_random_order().expect("shuffle is on");
    assert_eq!(order[0], 2);
    assert_eq!(sorted_order(&q), identity(5));
}

#[test]
fn shuffle_order_stays_bijective_under_edits() {
    let mut q = linear_queue(&[1, 2, 3], Some(1), RepeatSetting::Off);
    q.set_shuffle(true);
    assert_eq!(sorted_order(&q), identity(3));
    q.append(track(4));
    assert_eq!(sorted_order(&q), identity(4));
    q.insert_after_current(track(5));
    assert_eq!(sorted_order(&q), identity(5));
    q.append_next(&tracks(&[6, 7]));
    assert_eq!(sorted_order(&q), identity(7));
    q.remove(0);
    assert_eq!(sorted_order(&q), identity(6));
}

#[test]
fn shuffle_off_discards_the_order() {
    let mut q = linear_queue(&[1, 2, 3], None, RepeatSetting::Off);
    q.set_shuffle(true);
    assert!(q.get_random_order().is_some());
    q.set_shuffle(false);
    assert!(q.get_random_order().is_none());
}

#[test]
fn appended_item_plays_last_in_shuffle_order() {
    let mut q = linear_queue(&[1, 2, 3], Some(0), RepeatSetting::Off);
    q.set_shuffle(true);
    q.append(track(9));
    let order = q.get_random_order().expect("shuffle is on");
    assert_eq!(order[3], 3);
}

#[test]
fn track_repeat_reselects_current_and_manual_skip_downgrades() {
    let mut q = linear_queue(&[1, 2, 3], Some(1), RepeatSetting::RepeatTrack);
    let cmd = q.next(false);
    assert_eq!(cmd, Some(PlayerCommand::Load(track(2))));
    assert_eq!(q.get_current_index(), Some(1));
    assert_eq!(q.get_repeat(), RepeatSetting::RepeatTrack);

    let cmd = q.next(true);
    assert_eq!(cmd, Some(PlayerCommand::Load(track(3))));
    assert_eq!(q.get_current_index(), Some(2));
    assert_eq!(q.get_repeat(), RepeatSetting::RepeatPlaylist);
}

#[test]
fn next_at_boundary_without_repeat_stops_engine_only() {
    let mut q = linear_queue(&[1, 2, 3], Some(2), RepeatSetting::Off);
    let cmd = q.next(false);
    assert_eq!(cmd, Some(PlayerCommand::Stop));
    assert_eq!(q.get_current_index(), Some(2));
}

#[test]
fn previous_at_boundary_replays_current() {
    let mut q = linear_queue(&[1, 2, 3], Some(0), RepeatSetting::Off);
    let cmd = q.previous();
    assert_eq!(cmd, Some(PlayerCommand::Load(track(1))));
    assert_eq!(q.get_current_index(), Some(0));
}

#[test]
fn previous_wraps_to_last_under_playlist_repeat() {
    let mut q = linear_queue(&[1, 2, 3], Some(0), RepeatSetting::RepeatPlaylist);
    let cmd = q.previous();
    assert_eq!(cmd, Some(PlayerCommand::Load(track(3))));
    assert_eq!(q.get_current_index(), Some(2));
}

#[test]
fn random_pick_on_single_item_list_plays_it() {
    // With one item, a random pick must resolve to index 0, whatever the
    // requested index was.
    let mut q = linear_queue(&[42], None, RepeatSetting::Off);
    q.set_shuffle(true);
    let cmd = q.play(5, false, true);
    assert_eq!(cmd, Some(PlayerCommand::Load(track(42))));
    assert_eq!(q.get_current_index(), Some(0));
}

#[test]
fn play_out_of_range_loads_nothing() {
    let mut q = linear_queue(&[1, 2], Some(0), RepeatSetting::Off);
    let cmd = q.play(7, false, false);
    assert_eq!(cmd, None);
    assert_eq!(q.get_current_index(), Some(0));
}

#[test]
fn play_with_reshuffle_regenerates_order() {
    let mut q = linear_queue(&[1, 2, 3, 4], None, RepeatSetting::Off);
    q.set_shuffle(true);
    let cmd = q.play(3, true, false);
    assert_eq!(cmd, Some(PlayerCommand::Load(track(4))));
    let order = q.get_random_order().expect("shuffle is on");
    assert_eq!(order[0], 3);
    assert_eq!(sorted_order(&q), identity(4));
}

#[test]
fn insert_after_current_in_linear_order() {
    let mut q = linear_queue(&[1, 3], Some(0), RepeatSetting::Off);
    q.insert_after_current(track(2));
    assert_eq!(q.queue, tracks(&[1, 2, 3]));
    assert_eq!(q.get_current_index(), Some(0));
}

#[test]
fn insert_after_current_with_nothing_playing_appends() {
    let mut q = linear_queue(&[1, 2], None, RepeatSetting::Off);
    q.insert_after_current(track(3));
    assert_eq!(q.queue, tracks(&[1, 2, 3]));
}

#[test]
fn insert_after_current_keeps_shuffle_order_around_current() {
    let mut q = linear_queue(&[1, 2, 3], Some(1), RepeatSetting::Off);
    q.set_shuffle(true);
    let before = q.get_random_order().expect("shuffle is on");
    let rank = before.iter().position(|&i| i == 1).expect("current is in the order");
    q.insert_after_current(track(9));
    let after = q.get_random_order().expect("shuffle is on");
    assert_eq!(after.len(), 4);
    // The new track-list index, 2, stands right after the current item's rank.
    assert_eq!(after[rank + 1], 2);
    assert_eq!(sorted_order(&q), identity(4));
    assert_eq!(q.queue, tracks(&[1, 2, 9, 3]));
}

#[test]
fn clear_empties_and_stops() {
    let mut q = linear_queue(&[1, 2, 3], Some(1), RepeatSetting::Off);
    let cmd = q.clear();
    assert_eq!(cmd, PlayerCommand::Stop);
    assert_eq!(q.len(), 0);
    assert_eq!(q.get_current_index(), None);
}

#[test]
fn stop_clears_the_position() {
    let mut q = linear_queue(&[1, 2], Some(1), RepeatSetting::Off);
    let cmd = q.stop();
    assert_eq!(cmd, PlayerCommand::Stop);
    assert_eq!(q.get_current_index(), None);
    assert_eq!(q.len(), 2);
}

#[test]
fn toggleplayback_toggles_a_running_engine() {
    let mut q = linear_queue(&[1, 2], Some(0), RepeatSetting::Off);
    assert_eq!(q.toggleplayback(PlayerEvent::Playing(100)), Some(PlayerCommand::TogglePlayback));
    assert_eq!(q.toggleplayback(PlayerEvent::Paused(100)), Some(PlayerCommand::TogglePlayback));
    assert_eq!(q.get_current_index(), Some(0));
}

#[test]
fn toggleplayback_when_stopped_advances_or_restarts() {
    let mut q = linear_queue(&[1, 2], Some(0), RepeatSetting::Off);
    let cmd = q.toggleplayback(PlayerEvent::Stopped);
    assert_eq!(cmd, Some(PlayerCommand::Load(track(2))));
    assert_eq!(q.get_current_index(), Some(1));

    let mut q = linear_queue(&[1, 2], None, RepeatSetting::Off);
    let cmd = q.toggleplayback(PlayerEvent::Stopped);
    assert_eq!(cmd, Some(PlayerCommand::Load(track(1))));
    assert_eq!(q.get_current_index(), Some(0));
}

#[test]
fn preload_request_resolves_the_next_item() {
    let q = linear_queue(&[1, 2, 3], Some(0), RepeatSetting::Off);
    let cmd = q.handle_event(QueueEvent::PreloadTrackRequest);
    assert_eq!(cmd, Some(PlayerCommand::Preload(track(2))));

    let q = linear_queue(&[1, 2, 3], Some(2), RepeatSetting::Off);
    assert_eq!(q.handle_event(QueueEvent::PreloadTrackRequest), None);
}

#[test]
fn navigation_on_empty_list_does_nothing() {
    let mut q = linear_queue(&[], None, RepeatSetting::Off);
    assert_eq!(q.next_index(), None);
    assert_eq!(q.previous_index(), None);
    assert_eq!(q.previous(), None);
    assert_eq!(q.play(0, false, false), None);
    assert_eq!(q.toggleplayback(PlayerEvent::Stopped), None);
}

#[test]
fn new_drops_an_out_of_range_saved_position() {
    let q = Queue::new(tracks(&[1, 2]), Some(9), None, false, RepeatSetting::Off);
    assert_eq!(q.get_current_index(), None);
}

#[test]
fn new_keeps_a_valid_saved_order() {
    let saved = vec![2, 0, 1];
    let q = Queue::new(tracks(&[1, 2, 3]), Some(0), Some(saved.clone()), true, RepeatSetting::Off);
    assert_eq!(q.get_random_order(), Some(saved));
}

#[test]
fn new_regenerates_an_invalid_saved_order() {
    let q = Queue::new(tracks(&[1, 2, 3]), Some(1), Some(vec![0, 0, 1]), true, RepeatSetting::Off);
    let order = q.get_random_order().expect("shuffle is on");
    assert_eq!(order[0], 1);
    assert_eq!(sorted_order(&q), identity(3));
}

#[test]
fn absent_saved_order_means_shuffle_off() {
    let q = Queue::new(tracks(&[1, 2]), None, None, false, RepeatSetting::Off);
    assert_eq!(q.get_random_order(), None);
    assert!(!q.get_shuffle());
}

#[test]
fn shuffled_navigation_follows_the_permutation() {
    let saved = vec![1, 2, 0];
    let mut q = Queue::new(tracks(&[1, 2, 3]), Some(2), Some(saved), true, RepeatSetting::Off);
    // Current index 2 has rank 1; its neighbours in the permutation are 1 and 0.
    assert_eq!(q.next_index(), Some(0));
    assert_eq!(q.previous_index(), Some(1));
    let cmd = q.next(false);
    assert_eq!(cmd, Some(PlayerCommand::Load(track(1))));
    assert_eq!(q.get_current_index(), Some(0));
}

#[test]
fn repeat_setting_round_trips() {
    let mut q = linear_queue(&[1], None, RepeatSetting::Off);
    assert_eq!(q.get_repeat(), RepeatSetting::Off);
    q.set_repeat(RepeatSetting::RepeatTrack);
    assert_eq!(q.get_repeat(), RepeatSetting::RepeatTrack);
    q.set_repeat(RepeatSetting::RepeatPlaylist);
    assert_eq!(q.get_repeat(), RepeatSetting::RepeatPlaylist);
}

#[test]
fn shuffled_next_wraps_to_first_of_order() {
    // The saved order [2, 0, 1] puts index 1 last; playlist repeat wraps
    // from it to the order's first entry, index 2.
    let mut q = Queue::new(
        tracks(&[1, 2, 3]),
        Some(1),
        Some(vec![2, 0, 1]),
        true,
        RepeatSetting::RepeatPlaylist,
    );
    let cmd = q.next(false);
    assert_eq!(cmd, Some(PlayerCommand::Load(track(3))));
    assert_eq!(q.get_current_index(), Some(2));
}

#[test]
fn shuffled_previous_wraps_to_last_of_order() {
    // Index 2 is first in the saved order; playlist repeat wraps back to
    // the order's last entry, index 1.
    let mut q = Queue::new(
        tracks(&[1, 2, 3]),
        Some(2),
        Some(vec![2, 0, 1]),
        true,
        RepeatSetting::RepeatPlaylist,
    );
    let cmd = q.previous();
    assert_eq!(cmd, Some(PlayerCommand::Load(track(2))));
    assert_eq!(q.get_current_index(), Some(1));
}
