use aegis_vault::shred::{ShredStep, Shredder, PASSES};
use aegis_vault::task::{Action, Event, BUFFER_SIZE};

fn action(step: ShredStep) -> Action {
    match step {
        ShredStep::Do(action) => action,
        ShredStep::End(result) => panic!("ended with {:?}", result),
    }
}

/// Shreds a file of `size` bytes; gives what is written in each pass.
fn shred(size: u64) -> Vec<Vec<Vec<u8>>> {
    let mut passes: Vec<Vec<Vec<u8>>> = Vec::new();
    let mut event = Event::Done;
    let mut shredder = Shredder::new("secret.txt".to_string());
    loop {
        assert!(shredder.expects(&event));
        let (next, step) = shredder.next(event);
        shredder = next;
        event = match step {
            ShredStep::End(result) => {
                assert_eq!(result, Ok(()));
                assert!(!shredder.expects(&Event::Done));
                return passes;
            }
            ShredStep::Do(Action::StatFile(path)) => {
                assert_eq!(path, "secret.txt");
                Event::Size(size)
            }
            ShredStep::Do(Action::OpenForOverwrite(path)) => {
                assert_eq!(path, "secret.txt");
                passes.push(Vec::new());
                Event::Done
            }
            ShredStep::Do(Action::Overwrite(bytes)) => {
                passes.last_mut().unwrap().push(bytes);
                Event::Done
            }
            ShredStep::Do(Action::FlushOverwrite) => Event::Done,
            ShredStep::Do(Action::RemoveFile(path)) => {
                assert_eq!(path, "secret.txt");
                assert_eq!(passes.len(), PASSES as usize);
                Event::Done
            }
            ShredStep::Do(other) => panic!("unexpected {:?}", other),
        };
    }
}

#[test]
fn a_file_is_overwritten_three_times() {
    let passes = shred(1000);
    assert_eq!(passes.len(), 3);
    for pass in &passes {
        assert_eq!(pass.len(), 1);
        assert_eq!(pass[0].len(), 1000);
        assert!(pass[0].iter().any(|b| *b != 0));
    }
    assert_ne!(passes[0], passes[1]);
    assert_ne!(passes[1], passes[2]);
}

#[test]
fn large_files_are_overwritten_in_pieces() {
    let size = 2 * BUFFER_SIZE + 5;
    for pass in shred(size as u64) {
        let lengths: Vec<usize> = pass.iter().map(|p| p.len()).collect();
        assert_eq!(lengths, vec![BUFFER_SIZE, BUFFER_SIZE, 5]);
    }
}

#[test]
fn a_full_buffer_is_one_piece() {
    for pass in shred(BUFFER_SIZE as u64) {
        assert_eq!(pass.len(), 1);
        assert_eq!(pass[0].len(), BUFFER_SIZE);
    }
}

#[test]
fn an_empty_file_is_removed_without_writes() {
    assert_eq!(shred(0), vec![Vec::<Vec<u8>>::new(), Vec::new(), Vec::new()]);
}

/// Fails the action that comes after `before` successes.
fn failure_after(before: usize) -> String {
    let mut event = Event::Done;
    let mut shredder = Shredder::new("secret.txt".to_string());
    let mut served = 0;
    loop {
        let (next, step) = shredder.next(event);
        shredder = next;
        match step {
            ShredStep::End(result) => return result.unwrap_err(),
            ShredStep::Do(asked) => {
                event = if served == before {
                    Event::Failed("no luck".to_string())
                } else if let Action::StatFile(_) = asked {
                    Event::Size(10)
                } else {
                    Event::Done
                };
                served += 1;
                assert!(shredder.expects(&event));
            }
        }
    }
}

#[test]
fn failures_are_named() {
    assert_eq!(failure_after(0), "secure_delete metadata: no luck");
    assert_eq!(failure_after(1), "secure_delete open: no luck");
    assert_eq!(failure_after(2), "secure_delete write: no luck");
    assert_eq!(failure_after(3), "secure_delete flush: no luck");
    assert_eq!(failure_after(4), "secure_delete open: no luck");
    assert_eq!(failure_after(10), "secure_delete remove: no luck");
}

#[test]
fn a_failed_shredder_asks_for_nothing_more() {
    let (shredder, step) = Shredder::new("secret.txt".to_string()).next(Event::Done);
    assert_eq!(action(step), Action::StatFile("secret.txt".to_string()));
    let (shredder, step) = shredder.next(Event::Failed("gone".to_string()));
    assert!(matches!(step, ShredStep::End(Err(_))));
    assert!(!shredder.expects(&Event::Done));
    assert!(!shredder.expects(&Event::Failed(String::new())));
}

#[test]
fn only_fitting_events_are_expected() {
    let shredder = Shredder::new("secret.txt".to_string());
    assert!(!shredder.expects(&Event::Size(1)));
    assert!(!shredder.expects(&Event::Failed(String::new())));
    let (shredder, _) = shredder.next(Event::Done);
    assert!(!shredder.expects(&Event::Done));
    assert!(shredder.expects(&Event::Size(1)));
    let (shredder, _) = shredder.next(Event::Size(1));
    assert!(!shredder.expects(&Event::Size(1)));
    assert!(!shredder.expects(&Event::Data(vec![1])));
    assert!(shredder.expects(&Event::Done));
}

#[test]
fn given_bytes_are_handed_on() {
    let shredder = Shredder::new("secret.txt".to_string());
    assert_eq!(shredder.due(), 0);
    let (shredder, _) = shredder.next(Event::Done);
    assert_eq!(shredder.due(), 0);
    let (shredder, _) = shredder.next(Event::Size(BUFFER_SIZE as u64 + 3));
    assert_eq!(shredder.due(), BUFFER_SIZE);
    let (shredder, step) = shredder.overwrite_with(vec![7; BUFFER_SIZE]);
    assert_eq!(action(step), Action::Overwrite(vec![7; BUFFER_SIZE]));
    assert_eq!(shredder.due(), 3);
    let (shredder, step) = shredder.overwrite_with(vec![1, 2, 3]);
    assert_eq!(action(step), Action::Overwrite(vec![1, 2, 3]));
    assert_eq!(shredder.due(), 0);
    let (_, step) = shredder.next(Event::Done);
    assert_eq!(action(step), Action::FlushOverwrite);
}
