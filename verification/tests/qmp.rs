use json::JsonValue;
use qemu_launcher::error::{Error, ErrorKind};
use qemu_launcher::exchange::Reply;
use qemu_launcher::json_value::parse_json;
use qemu_launcher::qmp::{
    check_greeting, read_vcpu_info_from_qmp_socket, take_cpus, take_return, QmpAction, QmpClient,
};
use qemu_launcher::topology::Topology;

struct MockQmpPipe {
    reads: Vec<Option<String>>,
    writes: Vec<(String, bool)>,
    flushes: Vec<bool>,
}

impl MockQmpPipe {
    fn new(
        mut reads: Vec<Option<String>>,
        mut writes: Vec<(String, bool)>,
        mut flushes: Vec<bool>,
    ) -> Self {
        reads.reverse();
        writes.reverse();
        flushes.reverse();

        MockQmpPipe {
            reads: reads,
            writes: writes,
            flushes: flushes,
        }
    }

    fn failure(message: &str) -> Reply {
        Reply::Failed(Error::new(ErrorKind::Other, message.to_string()))
    }

    fn perform(&mut self, action: QmpAction) -> Reply {
        match action {
            QmpAction::ReadLine => match self.reads.pop() {
                Some(Some(message)) => Reply::Text(message),
                Some(None) => MockQmpPipe::failure("MockQmpPipe::read()"),
                None => panic!("Unexpected call to MockQmpPipe::read() method."),
            },
            QmpAction::Write(message) => match self.writes.pop() {
                Some((expected, true)) => {
                    assert_eq!(expected, message, "Unexpected call to MockQmpPipe::write()");
                    Reply::Done
                }
                Some((_, false)) => MockQmpPipe::failure("MockQmpPipe::write()"),
                None => panic!("Unexpected call to MockQmpPipe::write() method: {:?}", message),
            },
            QmpAction::Flush => match self.flushes.pop() {
                Some(true) => Reply::Done,
                Some(false) => MockQmpPipe::failure("MockQmpPipe::flush()"),
                None => panic!("Unexpected call to MockQmpPipe::flush() method."),
            },
        }
    }

    fn verify_expectations(&self) {
        assert_eq!(0, self.reads.len(), "more MockQmpPipe::read() method calls were expected.");
        assert_eq!(0, self.writes.len(), "more MockQmpPipe::write() method calls were expected.");
        assert_eq!(0, self.flushes.len(), "more MockQmpPipe::flush() method calls were expected.");
    }
}

fn query(client: &mut QmpClient, io: &mut MockQmpPipe) {
    client.query_cpus_fast();
    while let Some(action) = client.next_action() {
        let reply = io.perform(action);
        assert!(client.accepts(&reply));
        client.reply(reply);
    }
}

fn read_vcpu_info(mut io: MockQmpPipe) -> Result<Topology, Error> {
    let mut client = QmpClient::new();
    query(&mut client, &mut io);
    io.verify_expectations();

    read_vcpu_info_from_qmp_socket(client)
}

fn object(entries: Vec<(&str, JsonValue)>) -> JsonValue {
    let mut object = JsonValue::new_object();
    for (key, value) in entries {
        object.insert(key, value).unwrap();
    }
    object
}

fn array(items: Vec<JsonValue>) -> JsonValue {
    JsonValue::Array(items)
}

fn assert_error(result: Result<Topology, Error>, kind: ErrorKind, message: &str) {
    if let Err(error) = result {
        assert_eq!(kind, error.kind());
        assert_eq!(message, error.to_string());

        return;
    }

    panic!("Expected an error, got the Ok() result");
}

fn create_successful_mock_qmp_pipe(payload: JsonValue) -> MockQmpPipe {
    MockQmpPipe::new(
        vec![
            Some(
                (object(vec![
                    ("QMP", object(vec![
                        ("version", object(vec![
                            ("qemu", object(vec![
                                ("micro", JsonValue::from(0)),
                                ("minor", JsonValue::from(6)),
                                ("major", JsonValue::from(1)),
                            ])),
                            ("package", JsonValue::from("")),
                        ])),
                        ("capabilities", array(vec![])),
                    ])),
                ]))
                .dump()
                    + "\n",
            ),
            Some(object(vec![("return", object(vec![]))]).dump() + "\n"),
            Some(payload.dump() + "\n"),
        ],
        vec![
            (object(vec![("execute", JsonValue::from("qmp_capabilities"))]).dump(), true),
            (object(vec![("execute", JsonValue::from("query-cpus-fast"))]).dump(), true),
        ],
        vec![true, true],
    )
}

#[test]
fn read_vcpu_info_returns_json_information() {
    let io = create_successful_mock_qmp_pipe(object(vec![
        ("return", array(vec![
            object(vec![
                ("thread-id", JsonValue::from(25627)),
                ("props", object(vec![
                    ("core-id", JsonValue::from(0)),
                    ("thread-id", JsonValue::from(0)),
                    ("socket-id", JsonValue::from(0)),
                ])),
                ("qom-path", JsonValue::from("/machine/unattached/device[0]")),
                ("arch", JsonValue::from("x86")),
                ("target", JsonValue::from("x86_64")),
                ("cpu-index", JsonValue::from(0)),
            ]),
            object(vec![
                ("thread-id", JsonValue::from(25628)),
                ("props", object(vec![
                    ("core-id", JsonValue::from(0)),
                    ("thread-id", JsonValue::from(1)),
                    ("socket-id", JsonValue::from(0)),
                ])),
                ("qom-path", JsonValue::from("/machine/unattached/device[2]")),
                ("arch", JsonValue::from("x86")),
                ("target", JsonValue::from("x86_64")),
                ("cpu-index", JsonValue::from(1)),
            ]),
        ])),
    ]));

    let topology = read_vcpu_info(io).unwrap();

    let mut task_ids = topology.get_task_ids();
    task_ids.sort();

    assert_eq!(vec![25627, 25628], task_ids);

    assert_eq!(Some(25627), topology.get_thread_id(0, 0, 0));
    assert_eq!(Some(25628), topology.get_thread_id(0, 0, 1));

    assert_eq!(None, topology.get_thread_id(1, 0, 0));
    assert_eq!(None, topology.get_thread_id(0, 1, 0));
    assert_eq!(None, topology.get_thread_id(0, 0, 2));
}

#[test]
fn read_vcpu_info_returns_error_if_negotiation_read_fails() {
    let io = MockQmpPipe::new(vec![None], vec![], vec![]);
    let result = read_vcpu_info(io);

    assert_error(
        result,
        ErrorKind::Other,
        "Failed to read welcome message from QMP socket: `MockQmpPipe::read()`.",
    );
}

#[test]
fn read_vcpu_info_returns_error_if_negotiation_json_parsing_fails() {
    let io = MockQmpPipe::new(
        vec![Some(String::from("this is not a json\n"))],
        vec![],
        vec![],
    );
    let result = read_vcpu_info(io);

    assert_error(
        result,
        ErrorKind::Other,
        "Failed to parse QMP response `this is not a json\n`, \
            error: `Unexpected character: h at (1:2)`.",
    );
}

#[test]
fn read_vcpu_info_returns_error_if_negotiation_json_is_invalid() {
    let io = MockQmpPipe::new(vec![Some(String::from("{}\n"))], vec![], vec![]);
    let result = read_vcpu_info(io);

    assert_error(
        result,
        ErrorKind::Other,
        "Missing `QMP.capabilities` field in the welcome QMP message: {}.",
    );
}

#[test]
fn read_vcpu_info_returns_error_if_negotiation_write_fails() {
    let io = MockQmpPipe::new(
        vec![Some(
            (object(vec![
                ("QMP", object(vec![
                    ("version", object(vec![
                        ("qemu", object(vec![
                            ("micro", JsonValue::from(0)),
                            ("minor", JsonValue::from(6)),
                            ("major", JsonValue::from(1)),
                        ])),
                        ("package", JsonValue::from("")),
                    ])),
                    ("capabilities", array(vec![])),
                ])),
            ]))
            .dump()
                + "\n",
        )],
        vec![(
            (object(vec![("execute", JsonValue::from("qmp_capabilities"))]))
            .dump(),
            false,
        )],
        vec![],
    );
    let result = read_vcpu_info(io);

    assert_error(result, ErrorKind::Other, "MockQmpPipe::write()");
}

#[test]
fn read_vcpu_info_returns_error_if_negotiation_flush_fails() {
    let io = MockQmpPipe::new(
        vec![Some(
            (object(vec![
                ("QMP", object(vec![
                    ("version", object(vec![
                        ("qemu", object(vec![
                            ("micro", JsonValue::from(0)),
                            ("minor", JsonValue::from(6)),
                            ("major", JsonValue::from(1)),
                        ])),
                        ("package", JsonValue::from("")),
                    ])),
                    ("capabilities", array(vec![])),
                ])),
            ]))
            .dump()
                + "\n",
        )],
        vec![(object(vec![("execute", JsonValue::from("qmp_capabilities"))]).dump(), true)],
        vec![false],
    );
    let result = read_vcpu_info(io);

    assert_error(result, ErrorKind::Other, "MockQmpPipe::flush()");
}

#[test]
fn qeuery_cpu_fast_returns_error_if_negotiation_response_read_fails() {
    let io = MockQmpPipe::new(
        vec![
            Some(
                (object(vec![
                    ("QMP", object(vec![
                        ("version", object(vec![
                            ("qemu", object(vec![
                                ("micro", JsonValue::from(0)),
                                ("minor", JsonValue::from(6)),
                                ("major", JsonValue::from(1)),
                            ])),
                            ("package", JsonValue::from("")),
                        ])),
                        ("capabilities", array(vec![])),
                    ])),
                ]))
                .dump()
                    + "\n",
            ),
            None,
        ],
        vec![(object(vec![("execute", JsonValue::from("qmp_capabilities"))]).dump(), true)],
        vec![true],
    );
    let result = read_vcpu_info(io);

    assert_error(
        result,
        ErrorKind::Other,
        "Failed to read welcome message from QMP socket: `MockQmpPipe::read()`.",
    );
}

#[test]
fn read_vcpu_info_returns_error_if_json_response_contains_error_message() {
    let io = MockQmpPipe::new(
        vec![
            Some(
                (object(vec![
                    ("QMP", object(vec![
                        ("version", object(vec![
                            ("qemu", object(vec![
                                ("micro", JsonValue::from(0)),
                                ("minor", JsonValue::from(6)),
                                ("major", JsonValue::from(1)),
                            ])),
                            ("package", JsonValue::from("")),
                        ])),
                        ("capabilities", array(vec![])),
                    ])),
                ]))
                .dump()
                    + "\n",
            ),
            Some(
                (object(vec![
                    ("error", object(vec![
                        ("class", JsonValue::from("GenericError")),
                        ("desc", JsonValue::from("negotiation failed")),
                    ])),
                ]))
                .dump()
                    + "\n",
            ),
        ],
        vec![(object(vec![("execute", JsonValue::from("qmp_capabilities"))]).dump(), true)],
        vec![true],
    );
    let result = read_vcpu_info(io);

    assert_error(
        result,
        ErrorKind::Other,
        "Received error QMP response: `negotiation failed`.",
    );
}

#[test]
fn read_vcpu_info_returns_error_if_json_response_contains_no_return_field() {
    let io = MockQmpPipe::new(
        vec![
            Some(
                (object(vec![
                    ("QMP", object(vec![
                        ("version", object(vec![
                            ("qemu", object(vec![
                                ("micro", JsonValue::from(0)),
                                ("minor", JsonValue::from(6)),
                                ("major", JsonValue::from(1)),
                            ])),
                            ("package", JsonValue::from("")),
                        ])),
                        ("capabilities", array(vec![])),
                    ])),
                ]))
                .dump()
                    + "\n",
            ),
            Some(object(vec![("test", JsonValue::from("value"))]).dump() + "\n"),
        ],
        vec![(object(vec![("execute", JsonValue::from("qmp_capabilities"))]).dump(), true)],
        vec![true],
    );
    let result = read_vcpu_info(io);

    assert_error(
        result,
        ErrorKind::Other,
        "Missing `return` field in response: `{\"test\":\"value\"}`.",
    );
}

#[test]
fn read_vcpu_info_returns_error_if_sending_command_write_fails() {
    let io = MockQmpPipe::new(
        vec![
            Some(
                (object(vec![
                    ("QMP", object(vec![
                        ("version", object(vec![
                            ("qemu", object(vec![
                                ("micro", JsonValue::from(0)),
                                ("minor", JsonValue::from(6)),
                                ("major", JsonValue::from(1)),
                            ])),
                            ("package", JsonValue::from("")),
                        ])),
                        ("capabilities", array(vec![])),
                    ])),
                ]))
                .dump()
                    + "\n",
            ),
            Some(object(vec![("return", object(vec![]))]).dump() + "\n"),
        ],
        vec![
            (object(vec![("execute", JsonValue::from("qmp_capabilities"))]).dump(), true),
            (object(vec![("execute", JsonValue::from("query-cpus-fast"))]).dump(), false),
        ],
        vec![true],
    );
    let result = read_vcpu_info(io);

    assert_error(result, ErrorKind::Other, "MockQmpPipe::write()");
}

#[test]
fn read_vcpu_info_returns_error_if_sending_command_flush_fails() {
    let io = MockQmpPipe::new(
        vec![
            Some(
                (object(vec![
                    ("QMP", object(vec![
                        ("version", object(vec![
                            ("qemu", object(vec![
                                ("micro", JsonValue::from(0)),
                                ("minor", JsonValue::from(6)),
                                ("major", JsonValue::from(1)),
                            ])),
                            ("package", JsonValue::from("")),
                        ])),
                        ("capabilities", array(vec![])),
                    ])),
                ]))
                .dump()
                    + "\n",
            ),
            Some(object(vec![("return", object(vec![]))]).dump() + "\n"),
        ],
        vec![
            (object(vec![("execute", JsonValue::from("qmp_capabilities"))]).dump(), true),
            (object(vec![("execute", JsonValue::from("query-cpus-fast"))]).dump(), true),
        ],
        vec![true, false],
    );
    let result = read_vcpu_info(io);

    assert_error(result, ErrorKind::Other, "MockQmpPipe::flush()");
}

#[test]
fn read_vcpu_info_returns_error_if_reading_fails_after_sending_command() {
    let io = MockQmpPipe::new(
        vec![
            Some(
                (object(vec![
                    ("QMP", object(vec![
                        ("version", object(vec![
                            ("qemu", object(vec![
                                ("micro", JsonValue::from(0)),
                                ("minor", JsonValue::from(6)),
                                ("major", JsonValue::from(1)),
                            ])),
                            ("package", JsonValue::from("")),
                        ])),
                        ("capabilities", array(vec![])),
                    ])),
                ]))
                .dump()
                    + "\n",
            ),
            Some(object(vec![("return", object(vec![]))]).dump() + "\n"),
            None,
        ],
        vec![
            (object(vec![("execute", JsonValue::from("qmp_capabilities"))]).dump(), true),
            (object(vec![("execute", JsonValue::from("query-cpus-fast"))]).dump(), true),
        ],
        vec![true, true],
    );
    let result = read_vcpu_info(io);

    assert_error(
        result,
        ErrorKind::Other,
        "Failed to read welcome message from QMP socket: `MockQmpPipe::read()`.",
    );
}

#[test]
fn read_vcpu_info_returns_error_if_parsing_json_response_fails() {
    let io = MockQmpPipe::new(
        vec![
            Some(
                (object(vec![
                    ("QMP", object(vec![
                        ("version", object(vec![
                            ("qemu", object(vec![
                                ("micro", JsonValue::from(0)),
                                ("minor", JsonValue::from(6)),
                                ("major", JsonValue::from(1)),
                            ])),
                            ("package", JsonValue::from("")),
                        ])),
                        ("capabilities", array(vec![])),
                    ])),
                ]))
                .dump()
                    + "\n",
            ),
            Some(object(vec![("return", object(vec![]))]).dump() + "\n"),
            Some(String::from("not a JSON!\n")),
        ],
        vec![
            (object(vec![("execute", JsonValue::from("qmp_capabilities"))]).dump(), true),
            (object(vec![("execute", JsonValue::from("query-cpus-fast"))]).dump(), true),
        ],
        vec![true, true],
    );
    let result = read_vcpu_info(io);

    assert_error(
        result,
        ErrorKind::Other,
        "Failed to parse QMP response `not a JSON!\n`, \
            error: `Unexpected character: o at (1:2)`.",
    );
}

#[test]
fn read_vcpu_info_returns_error_if_qemu_returns_error_response() {
    let io = MockQmpPipe::new(
        vec![
            Some(
                (object(vec![
                    ("QMP", object(vec![
                        ("version", object(vec![
                            ("qemu", object(vec![
                                ("micro", JsonValue::from(0)),
                                ("minor", JsonValue::from(6)),
                                ("major", JsonValue::from(1)),
                            ])),
                            ("package", JsonValue::from("")),
                        ])),
                        ("capabilities", array(vec![])),
                    ])),
                ]))
                .dump()
                    + "\n",
            ),
            Some(object(vec![("return", object(vec![]))]).dump() + "\n"),
            Some(
                (object(vec![
                    ("error", object(vec![
                        ("class", JsonValue::from("GenericError")),
                        ("desc", JsonValue::from("query failed")),
                    ])),
                ]))
                .dump()
                    + "\n",
            ),
        ],
        vec![
            (object(vec![("execute", JsonValue::from("qmp_capabilities"))]).dump(), true),
            (object(vec![("execute", JsonValue::from("query-cpus-fast"))]).dump(), true),
        ],
        vec![true, true],
    );
    let result = read_vcpu_info(io);

    assert_error(
        result,
        ErrorKind::Other,
        "Received error QMP response: `query failed`.",
    );
}

#[test]
fn read_vcpu_info_returns_error_if_return_field_is_missing_from_qemu_response() {
    let io = MockQmpPipe::new(
        vec![
            Some(
                (object(vec![
                    ("QMP", object(vec![
                        ("version", object(vec![
                            ("qemu", object(vec![
                                ("micro", JsonValue::from(0)),
                                ("minor", JsonValue::from(6)),
                                ("major", JsonValue::from(1)),
                            ])),
                            ("package", JsonValue::from("")),
                        ])),
                        ("capabilities", array(vec![])),
                    ])),
                ]))
                .dump()
                    + "\n",
            ),
            Some(object(vec![("return", object(vec![]))]).dump() + "\n"),
            Some(object(vec![("wrong_response", object(vec![]))]).dump() + "\n"),
        ],
        vec![
            (object(vec![("execute", JsonValue::from("qmp_capabilities"))]).dump(), true),
            (object(vec![("execute", JsonValue::from("query-cpus-fast"))]).dump(), true),
        ],
        vec![true, true],
    );
    let result = read_vcpu_info(io);

    assert_error(
        result,
        ErrorKind::Other,
        "Missing `return` field in response: `{\"wrong_response\":{}}`.",
    );
}

#[test]
fn read_vcpu_info_returns_error_if_return_field_is_not_an_array() {
    let io = MockQmpPipe::new(
        vec![
            Some(
                (object(vec![
                    ("QMP", object(vec![
                        ("version", object(vec![
                            ("qemu", object(vec![
                                ("micro", JsonValue::from(0)),
                                ("minor", JsonValue::from(6)),
                                ("major", JsonValue::from(1)),
                            ])),
                            ("package", JsonValue::from("")),
                        ])),
                        ("capabilities", array(vec![])),
                    ])),
                ]))
                .dump()
                    + "\n",
            ),
            Some(object(vec![("return", object(vec![]))]).dump() + "\n"),
            Some(object(vec![("return", object(vec![("cpus", array(vec![]))]))]).dump() + "\n"),
        ],
        vec![
            (object(vec![("execute", JsonValue::from("qmp_capabilities"))]).dump(), true),
            (object(vec![("execute", JsonValue::from("query-cpus-fast"))]).dump(), true),
        ],
        vec![true, true],
    );
    let result = read_vcpu_info(io);

    assert_error(
        result,
        ErrorKind::Other,
        "Error parsing QMP response for `query-cpus-fast`, \
            expected an array, but got: `{\"cpus\":[]}`.",
    );
}

#[test]
fn read_vcpu_info_returns_error_if_process_id_is_not_an_integer() {
    let io = create_successful_mock_qmp_pipe(object(vec![
        ("return", array(vec![
            object(vec![
                ("thread-id", JsonValue::from("string")),
                ("props", object(vec![
                    ("core-id", JsonValue::from(0)),
                    ("thread-id", JsonValue::from(0)),
                    ("socket-id", JsonValue::from(0)),
                ])),
                ("qom-path", JsonValue::from("/machine/unattached/device[0]")),
                ("arch", JsonValue::from("x86")),
                ("target", JsonValue::from("x86_64")),
                ("cpu-index", JsonValue::from(0)),
            ]),
        ])),
    ]));

    let result = read_vcpu_info(io);

    assert_error(
        result,
        ErrorKind::Other,
        "`return.0.thread-id` is invalid, a positive \
            number is expected, but got: `string`.",
    );
}

#[test]
fn read_vcpu_info_returns_error_if_process_id_is_negative() {
    let io = create_successful_mock_qmp_pipe(object(vec![
        ("return", array(vec![
            object(vec![
                ("thread-id", JsonValue::from(-33)),
                ("props", object(vec![
                    ("core-id", JsonValue::from(0)),
                    ("thread-id", JsonValue::from(0)),
                    ("socket-id", JsonValue::from(0)),
                ])),
                ("qom-path", JsonValue::from("/machine/unattached/device[0]")),
                ("arch", JsonValue::from("x86")),
                ("target", JsonValue::from("x86_64")),
                ("cpu-index", JsonValue::from(0)),
            ]),
        ])),
    ]));

    let result = read_vcpu_info(io);

    assert_error(
        result,
        ErrorKind::Other,
        "`return.0.thread-id` is invalid, a positive number is expected, but got: `-33`.",
    );
}

#[test]
fn read_vcpu_info_returns_error_if_vcpu_properties_are_invalid() {
    let io = create_successful_mock_qmp_pipe(object(vec![
        ("return", array(vec![
            object(vec![
                ("thread-id", JsonValue::from(2418)),
                ("props", array(vec![])),
                ("qom-path", JsonValue::from("/machine/unattached/device[0]")),
                ("arch", JsonValue::from("x86")),
                ("target", JsonValue::from("x86_64")),
                ("cpu-index", JsonValue::from(0)),
            ]),
        ])),
    ]));

    let result = read_vcpu_info(io);

    assert_error(
        result,
        ErrorKind::Other,
        "Invalid vCPU info, expected `props` to be an object, but got: `[]`.",
    );
}

#[test]
fn read_vcpu_info_returns_error_if_vcpu_core_id_is_not_an_integer() {
    let io = create_successful_mock_qmp_pipe(object(vec![
        ("return", array(vec![
            object(vec![
                ("thread-id", JsonValue::from(5974)),
                ("props", object(vec![
                    ("core-id", JsonValue::from("wrong")),
                    ("thread-id", JsonValue::from(0)),
                    ("socket-id", JsonValue::from(0)),
                ])),
                ("qom-path", JsonValue::from("/machine/unattached/device[0]")),
                ("arch", JsonValue::from("x86")),
                ("target", JsonValue::from("x86_64")),
                ("cpu-index", JsonValue::from(0)),
            ]),
        ])),
    ]));

    let result = read_vcpu_info(io);

    assert_error(
        result,
        ErrorKind::Other,
        "`return.0.props.core-id` is invalid, a \
            positive number is expected, but got: `wrong`.",
    );
}

#[test]
fn read_vcpu_info_returns_error_if_vcpu_core_id_is_negative() {
    let io = create_successful_mock_qmp_pipe(object(vec![
        ("return", array(vec![
            object(vec![
                ("thread-id", JsonValue::from(6894)),
                ("props", object(vec![
                    ("core-id", JsonValue::from(-1)),
                    ("thread-id", JsonValue::from(0)),
                    ("socket-id", JsonValue::from(0)),
                ])),
                ("qom-path", JsonValue::from("/machine/unattached/device[0]")),
                ("arch", JsonValue::from("x86")),
                ("target", JsonValue::from("x86_64")),
                ("cpu-index", JsonValue::from(0)),
            ]),
        ])),
    ]));

    let result = read_vcpu_info(io);

    assert_error(
        result,
        ErrorKind::Other,
        "`return.0.props.core-id` is invalid, a \
            positive number is expected, but got: `-1`.",
    );
}

#[test]
fn read_vcpu_info_returns_error_if_vcpu_thread_id_is_not_an_integer() {
    let io = create_successful_mock_qmp_pipe(object(vec![
        ("return", array(vec![
            object(vec![
                ("thread-id", JsonValue::from(24789)),
                ("props", object(vec![
                    ("core-id", JsonValue::from(0)),
                    ("thread-id", JsonValue::from("tid0")),
                    ("socket-id", JsonValue::from(0)),
                ])),
                ("qom-path", JsonValue::from("/machine/unattached/device[0]")),
                ("arch", JsonValue::from("x86")),
                ("target", JsonValue::from("x86_64")),
                ("cpu-index", JsonValue::from(0)),
            ]),
        ])),
    ]));

    let result = read_vcpu_info(io);

    assert_error(
        result,
        ErrorKind::Other,
        "`return.0.props.thread-id` is invalid, a \
            positive number is expected, but got: `tid0`.",
    );
}

#[test]
fn read_vcpu_info_returns_error_if_vcpu_thread_id_is_negative() {
    let io = create_successful_mock_qmp_pipe(object(vec![
        ("return", array(vec![
            object(vec![
                ("thread-id", JsonValue::from(9514)),
                ("props", object(vec![
                    ("core-id", JsonValue::from(0)),
                    ("thread-id", JsonValue::from(-1)),
                    ("socket-id", JsonValue::from(0)),
                ])),
                ("qom-path", JsonValue::from("/machine/unattached/device[0]")),
                ("arch", JsonValue::from("x86")),
                ("target", JsonValue::from("x86_64")),
                ("cpu-index", JsonValue::from(0)),
            ]),
        ])),
    ]));

    let result = read_vcpu_info(io);

    assert_error(
        result,
        ErrorKind::Other,
        "`return.0.props.thread-id` is invalid, a \
            positive number is expected, but got: `-1`.",
    );
}

#[test]
fn read_vcpu_info_returns_error_if_vcpu_socket_id_is_not_an_integer() {
    let io = create_successful_mock_qmp_pipe(object(vec![
        ("return", array(vec![
            object(vec![
                ("thread-id", JsonValue::from(8711)),
                ("props", object(vec![
                    ("core-id", JsonValue::from(0)),
                    ("thread-id", JsonValue::from(0)),
                    ("socket-id", JsonValue::from("sockid0")),
                ])),
                ("qom-path", JsonValue::from("/machine/unattached/device[0]")),
                ("arch", JsonValue::from("x86")),
                ("target", JsonValue::from("x86_64")),
                ("cpu-index", JsonValue::from(0)),
            ]),
        ])),
    ]));

    let result = read_vcpu_info(io);

    assert_error(
        result,
        ErrorKind::Other,
        "`return.0.props.socket-id` is invalid, a \
            positive number is expected, but got: `sockid0`.",
    );
}

#[test]
fn read_vcpu_info_returns_error_if_vcpu_socket_id_is_negative() {
    let io = create_successful_mock_qmp_pipe(object(vec![
        ("return", array(vec![
            object(vec![
                ("thread-id", JsonValue::from(6152)),
                ("props", object(vec![
                    ("core-id", JsonValue::from(0)),
                    ("thread-id", JsonValue::from(0)),
                    ("socket-id", JsonValue::from(-2)),
                ])),
                ("qom-path", JsonValue::from("/machine/unattached/device[0]")),
                ("arch", JsonValue::from("x86")),
                ("target", JsonValue::from("x86_64")),
                ("cpu-index", JsonValue::from(0)),
            ]),
        ])),
    ]));

    let result = read_vcpu_info(io);

    assert_error(
        result,
        ErrorKind::Other,
        "`return.0.props.socket-id` is invalid, a \
            positive number is expected, but got: `-2`.",
    );
}

fn greeting() -> String {
    object(vec![("QMP", object(vec![("capabilities", array(vec![]))]))]).dump() + "\n"
}

fn no_cpus() -> String {
    object(vec![("return", array(vec![]))]).dump() + "\n"
}

#[test]
fn capabilities_are_settled_once() {
    let mut client = QmpClient::new();
    assert!(client.next_action().is_none());

    let mut io = MockQmpPipe::new(
        vec![Some(greeting()), Some(object(vec![("return", object(vec![]))]).dump()), Some(no_cpus())],
        vec![
            ("{\"execute\":\"qmp_capabilities\"}".to_string(), true),
            ("{\"execute\":\"query-cpus-fast\"}".to_string(), true),
        ],
        vec![true, true],
    );
    query(&mut client, &mut io);
    io.verify_expectations();

    let mut io = MockQmpPipe::new(
        vec![Some(no_cpus())],
        vec![("{\"execute\":\"query-cpus-fast\"}".to_string(), true)],
        vec![true],
    );
    query(&mut client, &mut io);
    io.verify_expectations();

    let topology = read_vcpu_info_from_qmp_socket(client).unwrap();
    assert_eq!(Vec::<usize>::new(), topology.get_task_ids());
}

#[test]
fn failed_negotiation_is_tried_again() {
    let mut client = QmpClient::new();
    let mut io = MockQmpPipe::new(vec![None], vec![], vec![]);
    query(&mut client, &mut io);
    io.verify_expectations();

    client.query_cpus_fast();
    assert!(matches!(client.next_action(), Some(QmpAction::ReadLine)));
    client.reply(Reply::Text(greeting()));
    assert!(matches!(client.next_action(), Some(QmpAction::Write(text))
        if text == "{\"execute\":\"qmp_capabilities\"}"));
}

#[test]
fn closed_connection_is_an_empty_message() {
    let io = MockQmpPipe::new(vec![Some(String::new())], vec![], vec![]);

    assert_error(
        read_vcpu_info(io),
        ErrorKind::Other,
        "Failed to parse QMP response ``, error: `Unexpected end of JSON`.",
    );
}

#[test]
fn messages_can_be_looked_at_one_by_one() {
    let greeting = parse_json("{\"QMP\": {\"capabilities\": [\"oob\"]}}").unwrap();
    assert!(check_greeting(&greeting).is_ok());
    let mute = parse_json("{\"QMP\": {}}").unwrap();
    assert_eq!(
        "Missing `QMP.capabilities` field in the welcome QMP message: {\"QMP\":{}}.",
        check_greeting(&mute).unwrap_err().to_string()
    );
    let refusal = parse_json("{\"error\": {\"desc\": \"no\"}, \"return\": 1}").unwrap();
    assert_eq!(
        "Received error QMP response: `no`.",
        take_return(refusal).unwrap_err().to_string()
    );
    let answer = take_return(parse_json("{\"return\": [1]}").unwrap()).unwrap();
    assert_eq!("[1]", answer.text());
    assert_eq!(1, take_cpus(answer).unwrap().len());
    assert_eq!(
        "Error parsing QMP response for `query-cpus-fast`, expected an array, but got: `7`.",
        take_cpus(parse_json("7").unwrap()).unwrap_err().to_string()
    );
}

#[test]
fn messages_with_numbers_that_are_too_long_are_not_accepted() {
    let long = "{\"QMP\": {\"capabilities\": [0.".to_string() + &"0".repeat(32769) + "]}}\n";
    let mut client = QmpClient::new();
    assert!(client.accepts(&Reply::Text(long.clone())));
    client.query_cpus_fast();
    assert!(!client.accepts(&Reply::Text(long)));
    assert!(client.accepts(&Reply::Text(greeting())));
    assert!(client.accepts(&Reply::Failed(Error::other("no".to_string()))));
}
