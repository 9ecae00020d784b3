use fibonacci::dialogue::{prompt, report, respond, run, Action, Complaint, Outcome};

fn lines(texts: &[&str]) -> Vec<String> {
    texts.iter().map(|text| text.to_string()).collect()
}

#[test]
fn the_words_of_the_dialogue() {
    assert_eq!(prompt(), "Enter n:");
    assert_eq!(Complaint::NotANumber.message(), "Enter a valid number");
    assert_eq!(Complaint::Negative.message(), "Enter a non-negative integer");
}

#[test]
fn reports_with_a_colon_from_index_two_on() {
    assert_eq!(report(7, 13), "The 7th fibonacci number is: 13");
    assert_eq!(report(10, 55), "The 10th fibonacci number is: 55");
    assert_eq!(report(2, 1), "The 2th fibonacci number is: 1");
    assert_eq!(report(47, 2971215073), "The 47th fibonacci number is: 2971215073");
}

#[test]
fn reports_without_a_colon_for_the_first_two() {
    assert_eq!(report(0, 0), "The 0th fibonacci number is 0");
    assert_eq!(report(1, 1), "The 1th fibonacci number is 1");
}

#[test]
fn a_line_that_fails_parsing_asks_again() {
    for line in ["abc", "", "3.5", "\n", "one", "2147483648"] {
        assert_eq!(respond(Some(line)), Action::Retry(Complaint::NotANumber));
    }
}

#[test]
fn a_negative_number_asks_again() {
    for line in ["-5", "-3\n", " -1", "-2147483648"] {
        assert_eq!(respond(Some(line)), Action::Retry(Complaint::Negative));
    }
}

#[test]
fn a_valid_index_finishes_with_its_number() {
    assert_eq!(
        respond(Some("7")),
        Action::Finish(Outcome::Reported { index: 7, value: 13 })
    );
    assert_eq!(
        respond(Some(" 0\n")),
        Action::Finish(Outcome::Reported { index: 0, value: 0 })
    );
    assert_eq!(
        respond(Some("47")),
        Action::Finish(Outcome::Reported { index: 47, value: 2971215073 })
    );
}

#[test]
fn an_index_whose_number_does_not_fit_finishes_with_overflow() {
    assert_eq!(respond(Some("48")), Action::Finish(Outcome::Overflow { index: 48 }));
    assert_eq!(
        respond(Some("2147483647\n")),
        Action::Finish(Outcome::Overflow { index: 2147483647 })
    );
}

#[test]
fn the_end_of_the_input_finishes() {
    assert_eq!(respond(None), Action::Finish(Outcome::InputExhausted));
}

#[test]
fn what_each_action_puts_out() {
    assert_eq!(
        Action::Retry(Complaint::NotANumber).lines(),
        vec!["Enter a valid number", "Enter n:"]
    );
    assert_eq!(
        Action::Retry(Complaint::Negative).lines(),
        vec!["Enter a non-negative integer", "Enter n:"]
    );
    assert_eq!(
        Action::Finish(Outcome::Reported { index: 10, value: 55 }).lines(),
        vec!["The 10th fibonacci number is: 55"]
    );
    assert_eq!(
        Action::Finish(Outcome::Overflow { index: 48 }).lines(),
        Vec::<String>::new()
    );
    assert_eq!(Action::Finish(Outcome::InputExhausted).lines(), Vec::<String>::new());
}

#[test]
fn unparsable_line_then_seven() {
    let transcript = run(&lines(&["abc", "7"]));
    assert_eq!(
        transcript.output,
        vec![
            "Enter n:",
            "Enter a valid number",
            "Enter n:",
            "The 7th fibonacci number is: 13",
        ]
    );
    assert_eq!(transcript.outcome, Outcome::Reported { index: 7, value: 13 });
}

#[test]
fn negative_line_then_zero() {
    let transcript = run(&lines(&["-3", "0"]));
    assert_eq!(
        transcript.output,
        vec![
            "Enter n:",
            "Enter a non-negative integer",
            "Enter n:",
            "The 0th fibonacci number is 0",
        ]
    );
    assert_eq!(transcript.outcome, Outcome::Reported { index: 0, value: 0 });
}

#[test]
fn one_at_once() {
    let transcript = run(&lines(&["1"]));
    assert_eq!(transcript.output, vec!["Enter n:", "The 1th fibonacci number is 1"]);
    assert_eq!(transcript.outcome, Outcome::Reported { index: 1, value: 1 });
}

#[test]
fn ten_at_once() {
    let transcript = run(&lines(&["10"]));
    assert_eq!(transcript.output, vec!["Enter n:", "The 10th fibonacci number is: 55"]);
    assert_eq!(transcript.outcome, Outcome::Reported { index: 10, value: 55 });
}

#[test]
fn no_input_at_all() {
    let transcript = run(&lines(&[]));
    assert_eq!(transcript.output, vec!["Enter n:"]);
    assert_eq!(transcript.outcome, Outcome::InputExhausted);
}

#[test]
fn input_that_ends_after_rejected_lines() {
    let transcript = run(&lines(&["abc", "-1", ""]));
    assert_eq!(
        transcript.output,
        vec![
            "Enter n:",
            "Enter a valid number",
            "Enter n:",
            "Enter a non-negative integer",
            "Enter n:",
            "Enter a valid number",
            "Enter n:",
        ]
    );
    assert_eq!(transcript.outcome, Outcome::InputExhausted);
}

#[test]
fn lines_after_the_accepted_one_are_not_read() {
    let transcript = run(&lines(&["5\n", "abc", "6"]));
    assert_eq!(transcript.output, vec!["Enter n:", "The 5th fibonacci number is: 5"]);
    assert_eq!(transcript.outcome, Outcome::Reported { index: 5, value: 5 });
}

#[test]
fn lines_with_line_ends_and_blanks() {
    let transcript = run(&lines(&["  \n", " 12 \r\n"]));
    assert_eq!(
        transcript.output,
        vec!["Enter n:", "Enter a valid number", "Enter n:", "The 12th fibonacci number is: 144"]
    );
    assert_eq!(transcript.outcome, Outcome::Reported { index: 12, value: 144 });
}

#[test]
fn an_index_too_large_reports_nothing() {
    let transcript = run(&lines(&["x", "48"]));
    assert_eq!(transcript.output, vec!["Enter n:", "Enter a valid number", "Enter n:"]);
    assert_eq!(transcript.outcome, Outcome::Overflow { index: 48 });
}

#[test]
fn the_same_index_gives_the_same_dialogue() {
    let first = run(&lines(&["20"]));
    let second = run(&lines(&["20"]));
    assert_eq!(first.output, second.output);
    assert_eq!(first.outcome, second.outcome);
    let written_otherwise = run(&lines(&[" +0020\n"]));
    assert_eq!(first.output, written_otherwise.output);
    assert_eq!(first.outcome, written_otherwise.outcome);
    assert_eq!(first.output[1], "The 20th fibonacci number is: 6765");
}

#[test]
fn a_rejected_line_puts_its_complaint_before_the_rest() {
    let rest = run(&lines(&["-2", "9"]));
    let longer = run(&lines(&["nine", "-2", "9"]));
    let mut expected = vec!["Enter n:".to_string(), "Enter a valid number".to_string()];
    expected.extend(rest.output.iter().cloned());
    assert_eq!(longer.output, expected);
    assert_eq!(longer.outcome, rest.outcome);
}
