use datalogger::command_recognizer::{CommandData, CommandRecognizer, BUFFER_NUM, BUFFER_SIZE};

fn feed(command_data: &mut CommandData, input: &str) {
    for c in input.chars() {
        CommandRecognizer::process_character(command_data, c);
    }
}

fn starts_with(slot: &[char; BUFFER_SIZE], message: &str) -> bool {
    message.chars().enumerate().all(|(i, c)| slot[i] == c)
}

#[test]
fn test_receiving() {
    let mut command_data: CommandData = CommandData::default();
    CommandRecognizer::process_character(&mut command_data, '{');

    assert_eq!(true, command_data.receiving());
}

#[test]
fn test_receiving_done() {
    let mut command_data: CommandData = CommandData::default();
    CommandRecognizer::process_character(&mut command_data, '{');
    CommandRecognizer::process_character(&mut command_data, '\r');

    assert_eq!(false, command_data.receiving());
}

#[test]
fn test_message_ready() {
    let mut command_data = CommandData::default();
    CommandRecognizer::process_character(&mut command_data, '{');
    CommandRecognizer::process_character(&mut command_data, '\r');

    assert_eq!(true, command_data.message_ready())
}

#[test]
fn test_message_saved() {
    let mut command_data = CommandData::default();
    let command = "{\"cmd\":\"set\",\"object\":\"sensor\"}\r";
    for c in command.chars() {
        CommandRecognizer::process_character(&mut command_data, c);
    }

    assert_eq!(true, command_data.message_ready());

    let slot = command_data.slot(0).unwrap();
    println!("{}", command);
    println!("{}", slot.iter().cloned().collect::<String>());

    let mut matching = true;
    for (i, c) in command.chars().enumerate() {
        if c == '\r' {
            break;
        }
        if slot[i] != c {
            println!("// {} {}", c, slot[i]);
            matching = false;
        }
    }
    assert_eq!(true, matching);
}

#[test]
fn test_multiple_messages() {
    let mut command_data = CommandData::default();
    let command = "{\"cmd\":\"set\",\"object\":\"sensor\"}\r";
    let command2 = "{\"cmd\":\"set\",\"object\":\"actuator\"}\r";
    for c in command.chars() {
        CommandRecognizer::process_character(&mut command_data, c);
    }
    for c in command2.chars() {
        CommandRecognizer::process_character(&mut command_data, c);
    }
    // check that there are commands ready
    assert_eq!(true, command_data.message_ready());
    // check that there are two commands ready
    assert_eq!(2, CommandRecognizer::pending_message_count(&command_data));
    // check that the first command is correct
    let slot = command_data.slot(0).unwrap();
    let mut matching = true;
    for (i, c) in command.chars().enumerate() {
        if c == '\r' {
            break;
        }
        if slot[i] != c {
            println!("// {} {}", c, slot[i]);
            matching = false;
        }
    }
    assert_eq!(true, matching);
}

#[test]
fn test_many_messages() {
    let mut command_data = CommandData::default();
    let command = "{\"cmd\":\"set\",\"object\":\"sensor\"}\r";

    for _i in 0..10 {
        for c in command.chars() {
            CommandRecognizer::process_character(&mut command_data, c);
        }
    }
    println!(
        "count {}",
        CommandRecognizer::pending_message_count(&command_data)
    );
    assert_eq!(10, CommandRecognizer::pending_message_count(&command_data))
}

#[test]
fn test_default_is_empty() {
    let command_data = CommandData::default();
    assert_eq!(false, command_data.receiving());
    assert_eq!(false, command_data.message_ready());
    assert_eq!(0, CommandRecognizer::pending_message_count(&command_data));
    assert_eq!(0, command_data.dropped_message_count());
    assert_eq!(0, command_data.truncated_character_count());
    for index in 0..BUFFER_NUM {
        assert_eq!(Some(['\0'; BUFFER_SIZE]), command_data.slot(index));
    }
    assert_eq!(None, command_data.slot(BUFFER_NUM));
}

#[test]
fn test_single_message_is_taken_verbatim() {
    let mut command_data = CommandData::default();
    let command = "{\"cmd\":\"set\",\"object\":\"sensor\"}\r";
    feed(&mut command_data, command);

    assert_eq!(1, CommandRecognizer::pending_message_count(&command_data));
    let taken = CommandRecognizer::take_command(&mut command_data);
    let expected = "{\"cmd\":\"set\",\"object\":\"sensor\"}";
    assert!(starts_with(&taken, expected));
    // The terminator is not part of the message; the rest of the slot is untouched.
    for i in expected.chars().count()..BUFFER_SIZE {
        assert_eq!('\0', taken[i]);
    }
    assert_eq!(0, CommandRecognizer::pending_message_count(&command_data));
    assert_eq!(false, command_data.message_ready());
}

#[test]
fn test_single_message_between_idle_characters() {
    let mut command_data = CommandData::default();
    feed(&mut command_data, "ab\rc{\"cmd\":\"get\"}\rxyz");

    assert_eq!(false, command_data.receiving());
    assert_eq!(1, CommandRecognizer::pending_message_count(&command_data));
    let taken = CommandRecognizer::take_command(&mut command_data);
    assert!(starts_with(&taken, "{\"cmd\":\"get\"}"));
}

#[test]
fn test_messages_are_taken_in_order_of_arrival() {
    let mut command_data = CommandData::default();
    let command = "{\"cmd\":\"set\",\"object\":\"sensor\"}\r";
    let command2 = "{\"cmd\":\"set\",\"object\":\"actuator\"}\r";
    feed(&mut command_data, command);
    feed(&mut command_data, command2);
    assert_eq!(2, CommandRecognizer::pending_message_count(&command_data));

    let first = CommandRecognizer::take_command(&mut command_data);
    assert!(starts_with(&first, "{\"cmd\":\"set\",\"object\":\"sensor\"}"));
    assert_eq!(1, CommandRecognizer::pending_message_count(&command_data));
    assert_eq!(true, command_data.message_ready());

    let second = CommandRecognizer::take_command(&mut command_data);
    assert!(starts_with(&second, "{\"cmd\":\"set\",\"object\":\"actuator\"}"));
    assert_eq!(0, CommandRecognizer::pending_message_count(&command_data));
    assert_eq!(false, command_data.message_ready());
}

#[test]
fn test_count_follows_number_of_messages() {
    for n in 0..BUFFER_NUM {
        let mut command_data = CommandData::default();
        for _ in 0..n {
            feed(&mut command_data, "{\"cmd\":\"get\"}\r");
        }
        assert_eq!(n, CommandRecognizer::pending_message_count(&command_data));
    }
}

#[test]
fn test_eleventh_message_is_dropped() {
    let mut command_data = CommandData::default();
    for i in 0..10 {
        feed(&mut command_data, &format!("{{\"n\":{}}}\r", i));
    }
    assert_eq!(10, CommandRecognizer::pending_message_count(&command_data));
    assert_eq!(0, command_data.dropped_message_count());

    feed(&mut command_data, "{\"n\":10}\r");
    assert_eq!(10, CommandRecognizer::pending_message_count(&command_data));
    assert_eq!(1, command_data.dropped_message_count());
    assert_eq!(false, command_data.receiving());

    feed(&mut command_data, "{\"n\":11}\r");
    assert_eq!(10, CommandRecognizer::pending_message_count(&command_data));
    assert_eq!(2, command_data.dropped_message_count());

    // The ten queued messages are intact and come out in order.
    for i in 0..10 {
        let taken = CommandRecognizer::take_command(&mut command_data);
        assert!(starts_with(&taken, &format!("{{\"n\":{}}}", i)));
        assert_eq!(9 - i, CommandRecognizer::pending_message_count(&command_data));
    }
}

#[test]
fn test_opening_delimiter_while_receiving_is_ignored() {
    let mut command_data = CommandData::default();
    feed(&mut command_data, "{ab");
    let before = command_data.slot(0).unwrap();

    CommandRecognizer::process_character(&mut command_data, '{');
    assert_eq!(Some(before), command_data.slot(0));
    assert_eq!(true, command_data.receiving());
    CommandRecognizer::process_character(&mut command_data, '{');
    assert_eq!(Some(before), command_data.slot(0));

    feed(&mut command_data, "c\r");
    let taken = CommandRecognizer::take_command(&mut command_data);
    assert!(starts_with(&taken, "{abc"));
    assert_eq!('\0', taken[4]);
}

#[test]
fn test_take_advances_round_the_ring() {
    let mut command_data = CommandData::default();
    // Three times round the ring: the read position wraps with the write head.
    for i in 0..(3 * BUFFER_NUM) {
        feed(&mut command_data, &format!("{{\"n\":{}}}\r", i));
        feed(&mut command_data, &format!("{{\"m\":{}}}\r", i));
        assert_eq!(2, CommandRecognizer::pending_message_count(&command_data));
        let first = CommandRecognizer::take_command(&mut command_data);
        assert_eq!(1, CommandRecognizer::pending_message_count(&command_data));
        let second = CommandRecognizer::take_command(&mut command_data);
        assert_eq!(0, CommandRecognizer::pending_message_count(&command_data));
        assert!(starts_with(&first, &format!("{{\"n\":{}}}", i)));
        assert!(starts_with(&second, &format!("{{\"m\":{}}}", i)));
    }
    assert_eq!(0, command_data.dropped_message_count());
}

#[test]
fn test_message_that_fills_the_slot() {
    let mut command_data = CommandData::default();
    let body: String = std::iter::repeat('a').take(BUFFER_SIZE - 1).collect();
    feed(&mut command_data, &format!("{{{}\r", body));

    assert_eq!(0, command_data.truncated_character_count());
    assert_eq!(1, CommandRecognizer::pending_message_count(&command_data));
    let taken = CommandRecognizer::take_command(&mut command_data);
    assert_eq!('{', taken[0]);
    for i in 1..BUFFER_SIZE {
        assert_eq!('a', taken[i]);
    }
}

#[test]
fn test_message_longer_than_the_slot_is_truncated() {
    let mut command_data = CommandData::default();
    let body: String = std::iter::repeat('a').take(BUFFER_SIZE - 1).collect();
    feed(&mut command_data, &format!("{{{}bcd", body));
    assert_eq!(3, command_data.truncated_character_count());
    assert_eq!(true, command_data.receiving());

    CommandRecognizer::process_character(&mut command_data, '\r');
    assert_eq!(false, command_data.receiving());
    assert_eq!(1, CommandRecognizer::pending_message_count(&command_data));
    // The next slot is untouched by what did not fit.
    assert_eq!(Some(['\0'; BUFFER_SIZE]), command_data.slot(1));

    let taken = CommandRecognizer::take_command(&mut command_data);
    assert_eq!('{', taken[0]);
    for i in 1..BUFFER_SIZE {
        assert_eq!('a', taken[i]);
    }

    // The framer goes on with the next message.
    feed(&mut command_data, "{ok}\r");
    let next = CommandRecognizer::take_command(&mut command_data);
    assert!(starts_with(&next, "{ok}"));
}

#[test]
fn test_terminator_is_not_stored() {
    let mut command_data = CommandData::default();
    feed(&mut command_data, "{ab\r");
    let mut first = ['\0'; BUFFER_SIZE];
    first[0] = '{';
    first[1] = 'a';
    first[2] = 'b';
    assert_eq!(Some(first), command_data.slot(0));
    for index in 1..BUFFER_NUM {
        assert_eq!(Some(['\0'; BUFFER_SIZE]), command_data.slot(index));
    }
}

#[test]
fn test_idle_characters_go_to_the_slot_under_the_write_head() {
    let mut command_data = CommandData::default();
    feed(&mut command_data, "{ab\r");
    feed(&mut command_data, "x\ry");
    assert_eq!(false, command_data.receiving());
    assert_eq!(1, CommandRecognizer::pending_message_count(&command_data));
    let mut expected = ['\0'; BUFFER_SIZE];
    expected[3] = 'x';
    expected[4] = '\r';
    expected[5] = 'y';
    assert_eq!(Some(expected), command_data.slot(1));

    // The next message starts the slot afresh.
    feed(&mut command_data, "{c\r");
    expected[0] = '{';
    expected[1] = 'c';
    assert_eq!(Some(expected), command_data.slot(1));
    assert_eq!(2, CommandRecognizer::pending_message_count(&command_data));
}

#[test]
fn test_unterminated_message_is_not_pending() {
    let mut command_data = CommandData::default();
    feed(&mut command_data, "{\"cmd\":\"set\"");
    assert_eq!(true, command_data.receiving());
    assert_eq!(false, command_data.message_ready());
    assert_eq!(0, CommandRecognizer::pending_message_count(&command_data));
}

#[test]
fn test_same_message_twice() {
    let mut command_data = CommandData::default();
    let command = "{\"cmd\":\"set\",\"object\":\"sensor\"}\r";
    feed(&mut command_data, command);
    feed(&mut command_data, command);
    assert_eq!(2, CommandRecognizer::pending_message_count(&command_data));

    let expected = "{\"cmd\":\"set\",\"object\":\"sensor\"}";
    let first = CommandRecognizer::take_command(&mut command_data);
    assert_eq!(Some(first), command_data.slot(0));
    assert!(starts_with(&first, expected));
    let second = CommandRecognizer::take_command(&mut command_data);
    assert_eq!(Some(second), command_data.slot(1));
    assert!(starts_with(&second, expected));
    assert_eq!(0, CommandRecognizer::pending_message_count(&command_data));
}

#[test]
fn test_eleventh_repeat_is_dropped() {
    let mut command_data = CommandData::default();
    let command = "{\"cmd\":\"set\",\"object\":\"sensor\"}\r";
    for _ in 0..10 {
        feed(&mut command_data, command);
    }
    assert_eq!(10, CommandRecognizer::pending_message_count(&command_data));
    feed(&mut command_data, command);
    assert_eq!(10, CommandRecognizer::pending_message_count(&command_data));
    assert_eq!(1, command_data.dropped_message_count());
    for index in 0..10 {
        assert!(starts_with(
            &command_data.slot(index).unwrap(),
            "{\"cmd\":\"set\",\"object\":\"sensor\"}"
        ));
    }
}
