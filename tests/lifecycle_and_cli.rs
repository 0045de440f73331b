use ecdsa_spartan2::chunks::{chunk_file_name, order_chunk_files, parse_chunk_index, split_into_chunks};
use ecdsa_spartan2::circuits::{calculate_jwt_output_indices, is_shape_only, set_prepare_input_path, PrepareCircuit, ShowCircuit};
use ecdsa_spartan2::cli::{parse_circuit_command, parse_command, parse_options, ensure_no_options, CircuitAction, CircuitKind, CliError, ParsedCommand};
use ecdsa_spartan2::lifecycle::{check_shared_blinds, run_slot, slot_step, LifecycleError, SlotEvent, SlotState, NUM_SHARED};
use ecdsa_spartan2::plan::{artifact_paths, execute_prepare, execute_show, Step, PREPARE_PROOF, SHOW_PROVING_KEY};
use ecdsa_spartan2::report::{format_size, size_display, SizeUnit};

fn args(words: &[&str]) -> Vec<String> {
    words.iter().map(|w| w.to_string()).collect()
}

fn parsed(words: &[&str]) -> Result<(CircuitKind, CircuitAction, Option<String>), CliError> {
    parse_command(&args(words)).map(|c: ParsedCommand| (c.circuit, c.action, c.options.input))
}

#[test]
fn circuit_commands() {
    assert_eq!(parsed(&["prepare"]), Ok((CircuitKind::Prepare, CircuitAction::Run, None)));
    assert_eq!(parsed(&["show", "prove"]), Ok((CircuitKind::Show, CircuitAction::Prove, None)));
    assert_eq!(
        parsed(&["prepare", "run", "--input", "in.json"]),
        Ok((CircuitKind::Prepare, CircuitAction::Run, Some("in.json".to_string())))
    );
    assert_eq!(
        parsed(&["show", "-i", "a.json"]),
        Ok((CircuitKind::Show, CircuitAction::Run, Some("a.json".to_string())))
    );
    assert_eq!(
        parsed(&["prepare", "setup", "--input=x.json"]),
        Ok((CircuitKind::Prepare, CircuitAction::Setup, Some("x.json".to_string())))
    );
    assert_eq!(
        parsed(&["prepare", "prove", "-i", "a", "--input", "b"]),
        Ok((CircuitKind::Prepare, CircuitAction::Prove, Some("b".to_string())))
    );
    assert_eq!(parsed(&["prepare", "generate_shared_blinds"]), Ok((CircuitKind::Prepare, CircuitAction::GenerateSharedBlinds, None)));
    assert_eq!(parsed(&["show", "benchmark"]), Ok((CircuitKind::Show, CircuitAction::Benchmark, None)));
}

#[test]
fn command_errors() {
    assert_eq!(parsed(&[]), Err(CliError::NoCommand));
    assert_eq!(parsed(&["frobnicate"]), Err(CliError::UnknownCommand));
    assert_eq!(parsed(&["--help"]), Err(CliError::HelpRequested));
    assert_eq!(parsed(&["-h"]), Err(CliError::HelpRequested));
    assert_eq!(parsed(&["prepare", "dance"]), Err(CliError::UnknownAction));
    assert_eq!(parsed(&["show", "generate_shared_blinds"]), Err(CliError::SharedBlindsOnlyForPrepare));
    assert_eq!(parsed(&["show", "verify", "--input", "x"]), Err(CliError::UnexpectedOptions(2)));
    assert_eq!(parsed(&["prepare", "prove", "--input"]), Err(CliError::MissingInputValue));
    assert_eq!(parsed(&["prepare", "prove", "--input="]), Err(CliError::MissingInputValue));
    assert_eq!(parsed(&["prepare", "prove", "--verbose"]), Err(CliError::UnknownOption(2)));
    assert_eq!(parsed(&["prepare", "prove", "--help"]), Err(CliError::HelpRequested));
}

#[test]
fn single_word_commands() {
    assert_eq!(parsed(&["benchmark", "-i", "j.json"]), Ok((CircuitKind::Prepare, CircuitAction::Benchmark, Some("j.json".to_string()))));
    assert_eq!(parsed(&["setup_show"]), Ok((CircuitKind::Show, CircuitAction::Setup, None)));
    assert_eq!(parsed(&["prove_prepare"]), Ok((CircuitKind::Prepare, CircuitAction::Prove, None)));
    assert_eq!(parsed(&["verify_show"]), Ok((CircuitKind::Show, CircuitAction::Verify, None)));
    assert_eq!(parsed(&["reblind_prepare"]), Ok((CircuitKind::Prepare, CircuitAction::Reblind, None)));
    assert_eq!(parsed(&["generate_shared_blinds"]), Ok((CircuitKind::Prepare, CircuitAction::GenerateSharedBlinds, None)));
    assert_eq!(parsed(&["reblind_show", "extra"]), Err(CliError::UnexpectedOptions(1)));
}

#[test]
fn option_helpers() {
    let a = args(&["x", "--input", "p"]);
    assert_eq!(parse_options(&a, 1).map(|o| o.input), Ok(Some("p".to_string())));
    assert_eq!(parse_options(&a, 3).map(|o| o.input), Ok(None));
    assert_eq!(ensure_no_options(&a, 3).map(|o| o.input), Ok(None));
    assert_eq!(ensure_no_options(&a, 1).map(|o| o.input), Err(CliError::UnexpectedOptions(1)));
    let r = parse_circuit_command(CircuitKind::Show, &args(&["show"]), 1).map(|c| c.action);
    assert_eq!(r, Ok(CircuitAction::Run));
}

#[test]
fn plans_for_actions() {
    assert_eq!(execute_prepare(CircuitAction::Prove), vec![Step::Prove(CircuitKind::Prepare)]);
    assert_eq!(execute_prepare(CircuitAction::GenerateSharedBlinds), vec![Step::GenerateSharedBlinds]);
    assert_eq!(execute_show(CircuitAction::Reblind), Ok(vec![Step::Reblind(CircuitKind::Show)]));
    assert_eq!(execute_show(CircuitAction::GenerateSharedBlinds), Err(CliError::SharedBlindsOnlyForPrepare));
    let bench = execute_prepare(CircuitAction::Benchmark);
    assert_eq!(bench.len(), 10);
    assert_eq!(bench[2], Step::GenerateSharedBlinds);
    assert_eq!(bench[9], Step::Summary);
    assert_eq!(execute_show(CircuitAction::Benchmark), Ok(bench));
    assert_eq!(artifact_paths(CircuitKind::Prepare).proof, PREPARE_PROOF);
    assert_eq!(artifact_paths(CircuitKind::Show).proving_key, SHOW_PROVING_KEY);
}

#[test]
fn benchmark_plan_drives_each_slot_through_its_lifecycle() {
    let bench = execute_prepare(CircuitAction::Benchmark);
    for circuit in [CircuitKind::Prepare, CircuitKind::Show] {
        let events: Vec<SlotEvent> = bench
            .iter()
            .filter_map(|s| match s {
                Step::Prove(c) if *c == circuit => Some(SlotEvent::Prove),
                Step::Reblind(c) if *c == circuit => Some(SlotEvent::Reblind),
                Step::Verify(c) if *c == circuit => Some(SlotEvent::Verify),
                _ => None,
            })
            .collect();
        assert_eq!(run_slot(SlotState::Uncreated, &events), Ok(SlotState::Reblinded(1)));
    }
}

#[test]
fn slot_transitions() {
    assert_eq!(slot_step(SlotState::Uncreated, SlotEvent::Verify), Err(LifecycleError::NotProved));
    assert_eq!(slot_step(SlotState::Uncreated, SlotEvent::Reblind), Err(LifecycleError::NotProved));
    assert_eq!(slot_step(SlotState::Uncreated, SlotEvent::Prove), Ok(SlotState::Proved));
    assert_eq!(slot_step(SlotState::Proved, SlotEvent::Reblind), Ok(SlotState::Reblinded(1)));
    assert_eq!(slot_step(SlotState::Reblinded(4), SlotEvent::Reblind), Ok(SlotState::Reblinded(5)));
    assert_eq!(slot_step(SlotState::Reblinded(u64::MAX), SlotEvent::Reblind), Ok(SlotState::Reblinded(u64::MAX)));
    assert_eq!(slot_step(SlotState::Reblinded(3), SlotEvent::Verify), Ok(SlotState::Reblinded(3)));
    assert_eq!(slot_step(SlotState::Reblinded(3), SlotEvent::Prove), Ok(SlotState::Proved));
}

#[test]
fn repeated_reblinds_stay_verifiable() {
    let mut events = vec![SlotEvent::Prove];
    for _ in 0..5 {
        events.push(SlotEvent::Reblind);
        events.push(SlotEvent::Verify);
    }
    assert_eq!(run_slot(SlotState::Uncreated, &events), Ok(SlotState::Reblinded(5)));
    assert_eq!(run_slot(SlotState::Uncreated, &vec![SlotEvent::Reblind, SlotEvent::Prove]), Err(LifecycleError::NotProved));
}

#[test]
fn shared_blinds_must_match_rows() {
    assert_eq!(check_shared_blinds(NUM_SHARED, 1), Ok(()));
    assert_eq!(
        check_shared_blinds(1, 2),
        Err(LifecycleError::SharedBlindsLength { expected: 1, found: 2 })
    );
}

#[test]
fn chunks_concatenate_to_the_key() {
    let key: Vec<u8> = (0..25u8).collect();
    let chunks = split_into_chunks(&key, 10);
    assert_eq!(chunks.len(), 3);
    assert_eq!(chunks[0].len(), 10);
    assert_eq!(chunks[2], vec![20, 21, 22, 23, 24]);
    assert_eq!(chunks.concat(), key);
    assert_eq!(split_into_chunks(&key, 25).len(), 1);
    assert!(split_into_chunks(&[], 4).is_empty());
}

#[test]
fn chunk_names_read_back() {
    assert_eq!(chunk_file_name(0), "chunk_0");
    assert_eq!(chunk_file_name(12), "chunk_12");
    for i in [0u64, 7, 10, 123456, u64::MAX] {
        assert_eq!(parse_chunk_index(&chunk_file_name(i)), Some(i));
    }
    assert_eq!(parse_chunk_index("chunk_"), None);
    assert_eq!(parse_chunk_index("chunk_1a"), None);
    assert_eq!(parse_chunk_index("part_1"), None);
    assert_eq!(parse_chunk_index("chunk_18446744073709551616"), None);
    assert_eq!(parse_chunk_index("chunk_007"), Some(7));
}

#[test]
fn chunks_are_ordered_numerically() {
    let names = args(&["chunk_10", "notes.txt", "chunk_2", "chunk_0", "chunk_1"]);
    let order = order_chunk_files(&names);
    assert_eq!(order, vec![(0, 3), (1, 4), (2, 2), (10, 0)]);
}

#[test]
fn sizes_are_formatted() {
    assert_eq!(format_size(0), "0 B");
    assert_eq!(format_size(1023), "1023 B");
    assert_eq!(format_size(1024), "1.00 KB");
    assert_eq!(format_size(1536), "1.50 KB");
    assert_eq!(format_size(1024 * 1024), "1.00 MB");
    assert_eq!(size_display(5 * 1024 * 1024 + 10).unit, SizeUnit::MegaBytes);
}

#[test]
fn sizes_agree_with_float_formatting() {
    let samples: Vec<u64> = (1000..5000u64)
        .chain([1152, 1048575, 1048576, 1153433, 123456789, 987654321, 1 << 40].iter().copied())
        .collect();
    for bytes in samples {
        let expected = if bytes < 1024 {
            format!("{} B", bytes)
        } else if bytes < 1024 * 1024 {
            format!("{:.2} KB", bytes as f64 / 1024.0)
        } else {
            format!("{:.2} MB", bytes as f64 / (1024.0 * 1024.0))
        };
        assert_eq!(format_size(bytes), expected, "bytes = {}", bytes);
    }
}

#[test]
fn shape_mode_detection() {
    assert!(is_shape_only("spartan2::bellpepper::shape_cs::ShapeCS<spartan2::provider::T256HyraxEngine>"));
    assert!(!is_shape_only("spartan2::bellpepper::solver::SatisfyingAssignment<E>"));
    assert!(!is_shape_only("Shape"));
    assert!(is_shape_only("ShapeCS"));
}

#[test]
fn jwt_output_indices() {
    assert_eq!(calculate_jwt_output_indices(4, 128), (385, 386));
    assert_eq!(calculate_jwt_output_indices(0, 128), (1, 2));
    assert_eq!(calculate_jwt_output_indices(2, 5), (7, 8));
}

#[test]
fn circuits_carry_their_input() {
    let mut c = PrepareCircuit::new(None);
    set_prepare_input_path(&mut c, Some("in.json".to_string()));
    assert_eq!(c.input.as_deref(), Some("in.json"));
    set_prepare_input_path(&mut c, None);
    assert!(c.input.is_none());
    assert_eq!(ShowCircuit::new(Some("s".to_string())).input.as_deref(), Some("s"));
    assert_eq!(c.shape.max_matches, 4);
    assert_eq!(c.shape.max_claims_length, 128);
}
