use qemu_launcher::arguments::Arguments;

#[test]
fn arguments_accepts_machine_name() {
    let arguments = match Arguments::new(&vec![String::from("launcher"), String::from("my-vm")])
    {
        Arguments::Valid(v) => v,
        _ => panic!("Expected arguments to be valid"),
    };

    assert!(
        !arguments.is_verbose_mode(),
        "Verbose mode is not enabled with `-v` flag"
    );
    assert!(
        !arguments.is_debug_enabled(),
        "Debug mode is enabled without `-d` flag"
    );
    assert_eq!("my-vm", arguments.get_machine_name());
    assert_eq!("launcher", arguments.get_program_name());
}

#[test]
fn arguments_accepts_verbose_flag() {
    let arguments = match Arguments::new(&vec![
        String::from("launcher"),
        String::from("-v"),
        String::from("verbose-vm"),
    ]) {
        Arguments::Valid(v) => v,
        _ => panic!("Expected arguments to be valid"),
    };

    assert!(
        arguments.is_verbose_mode(),
        "Verbose mode is not enabled with `-v` flag"
    );
}

#[test]
fn arguments_accepts_debug_flag() {
    let arguments = match Arguments::new(&vec![
        String::from("launcher"),
        String::from("-d"),
        String::from("debug-vm"),
    ]) {
        Arguments::Valid(v) => v,
        _ => panic!("Expected arguments to be valid"),
    };

    assert!(
        arguments.is_verbose_mode(),
        "Verbose mode is not enabled with `-d` flag"
    );
    assert!(
        arguments.is_debug_enabled(),
        "Debug mode is not enabled with `-d` flag"
    );
}

#[test]
fn arguments_ignores_duplicate_flags() {
    let arguments = match Arguments::new(&vec![
        String::from("launcher"),
        String::from("-v"),
        String::from("debug-vm"),
        String::from("-v"),
        String::from("-d"),
        String::from("-d"),
    ]) {
        Arguments::Valid(v) => v,
        _ => panic!("Expected arguments to be valid"),
    };

    assert!(
        arguments.is_verbose_mode(),
        "Debug mode is not enabled with `-d` flag"
    );
    assert!(
        arguments.is_debug_enabled(),
        "Verbose mode is not enabled with `-d` flag"
    );
}

#[test]
fn arguments_reports_empty_arguments() {
    match Arguments::new(&vec![]) {
        Arguments::Empty => {}
        _ => panic!("Expected arguments to be an empty instance"),
    }
}

#[test]
fn arguments_reports_missing_machine_name() {
    let result = match Arguments::new(&vec![String::from("qemu")]) {
        Arguments::Invalid(e) => e,
        _ => panic!("Expected arguments to be invalid"),
    };

    assert_eq!("Missing the guest machine name", result.get_error());
    assert_eq!("qemu", result.get_program_name());
}

#[test]
fn arguments_discards_all_arguments_if_help_is_requested() {
    let arguments = match Arguments::new(&vec![
        String::from("launcher"),
        String::from("-v"),
        String::from("-d"),
        String::from("-h"),
        String::from("debug-vm"),
    ]) {
        Arguments::Usage(u) => u,
        _ => panic!("Expected arguments to be a usage instance"),
    };

    assert_eq!("launcher", arguments.get_program_name());
}

#[test]
fn arguments_reports_too_many_arguments() {
    let result = match Arguments::new(&vec![
        String::from("launcher"),
        String::from("my-vm"),
        String::from("your-vm"),
    ]) {
        Arguments::Invalid(e) => e,
        _ => panic!("Expected arguments to be invalid"),
    };

    assert_eq!("Too many parameters.", result.get_error());
    assert_eq!("launcher", result.get_program_name());
}

#[test]
fn arguments_reports_error_if_machine_name_contains_wrong_characters() {
    let result = match Arguments::new(&vec![String::from("launcher"), String::from("my-vm\0")])
    {
        Arguments::Invalid(e) => e,
        _ => panic!("Expected arguments to be invalid"),
    };

    assert_eq!(
        "The machine name contains invalid characters.",
        result.get_error(),
    );
    assert_eq!("launcher", result.get_program_name());
}

#[test]
fn arguments_uses_default_program_name_if_missing_from_input() {
    let arguments = match Arguments::new(&vec![String::from(""), String::from("myvm")]) {
        Arguments::Valid(v) => v,
        _ => panic!("Expected arguments to be valid"),
    };

    assert_eq!("qemu-launcher", arguments.get_program_name());
    assert_eq!("myvm", arguments.get_machine_name());
}

fn words(words: &[&str]) -> Vec<String> {
    words.iter().map(|word| word.to_string()).collect()
}

#[test]
fn program_name_is_the_last_name_of_its_path() {
    match Arguments::new(&words(&["/usr/bin/launch", "-h"])) {
        Arguments::Usage(usage) => assert_eq!("launch", usage.get_program_name()),
        _ => panic!("help is expected"),
    }
    match Arguments::new(&words(&["/usr/..", "-h"])) {
        Arguments::Usage(usage) => assert_eq!("qemu-launcher", usage.get_program_name()),
        _ => panic!("help is expected"),
    }
}

#[test]
fn help_after_too_many_words_is_too_late() {
    match Arguments::new(&words(&["launcher", "a", "b", "-h"])) {
        Arguments::Invalid(invalid) => assert_eq!("Too many parameters.", invalid.get_error()),
        _ => panic!("an error is expected"),
    }
    match Arguments::new(&words(&["launcher", "a", "-h", "b"])) {
        Arguments::Usage(_) => {}
        _ => panic!("help is expected"),
    }
    match Arguments::new(&words(&["launcher", "a/b", "-h"])) {
        Arguments::Usage(_) => {}
        _ => panic!("help is expected"),
    }
}

#[test]
fn machine_name_is_no_path() {
    match Arguments::new(&words(&["launcher", "../secret"])) {
        Arguments::Invalid(invalid) => assert_eq!(
            "The machine name contains invalid characters.",
            invalid.get_error()
        ),
        _ => panic!("an error is expected"),
    }
}

#[test]
fn options_may_stand_anywhere() {
    for order in [["-d", "vm", "-v"], ["vm", "-d", "-v"], ["-v", "-d", "vm"], ["-d", "-v", "vm"]] {
        let mut arguments = words(&["launcher"]);
        arguments.extend(words(&order));
        match Arguments::new(&arguments) {
            Arguments::Valid(valid) => {
                assert_eq!("vm", valid.get_machine_name());
                assert!(valid.is_debug_enabled());
                assert!(valid.is_verbose_mode());
            }
            _ => panic!("valid arguments are expected"),
        }
    }
}
