use tzmcfi_tools::benchmark::{
    result_from_coremark, result_from_enclosed, Benchmark, PostProcessor, ProcessOutputError,
};

fn processor(benchmark: Benchmark) -> PostProcessor {
    PostProcessor::new(benchmark).expect("the patterns are accepted")
}

const ALL: [Benchmark; 5] = [
    Benchmark::Rtos,
    Benchmark::Latency,
    Benchmark::CoreMark,
    Benchmark::ProfileSes,
    Benchmark::ProfileRtos,
];

#[test]
fn names() {
    let names: Vec<String> = ALL.iter().map(|b| b.name()).collect();
    assert_eq!(names, vec!["bench-rtos", "bench-latency", "bench-coremark", "profile-ses", "profile-rtos"]);
}

#[test]
fn terminators_and_markers() {
    assert_eq!(Benchmark::Rtos.output_terminator(), b"Done!".to_vec());
    assert_eq!(Benchmark::CoreMark.output_terminator(), b"* portable_fini - system halted".to_vec());
    for b in [Benchmark::Latency, Benchmark::ProfileSes, Benchmark::ProfileRtos] {
        assert_eq!(b.output_terminator(), b"%output-end".to_vec());
    }
    for b in ALL {
        assert_eq!(b.markers(), vec![b"unhandled exception".to_vec(), b.output_terminator()]);
    }
}

#[test]
fn exercised_dimensions() {
    let rtos = Benchmark::Rtos.feature_use();
    assert!(rtos.shadow_exception_stacks && rtos.shadow_stacks && rtos.context_management);
    assert!(rtos.accel_raise_pri && rtos.icall_sanitizer);
    assert_eq!(Benchmark::ProfileRtos.feature_use(), rtos);
    let latency = Benchmark::Latency.feature_use();
    assert!(latency.shadow_exception_stacks);
    assert!(!latency.shadow_stacks && !latency.context_management);
    assert!(!latency.accel_raise_pri && !latency.icall_sanitizer);
    assert_eq!(Benchmark::ProfileSes.feature_use(), latency);
    let coremark = Benchmark::CoreMark.feature_use();
    assert!(!coremark.shadow_exception_stacks && coremark.shadow_stacks);
    assert!(!coremark.context_management && !coremark.accel_raise_pri && coremark.icall_sanitizer);
}

#[test]
fn patterns_are_accepted_for_every_benchmark() {
    for b in ALL {
        let p = PostProcessor::new(b);
        assert!(p.is_some());
        assert_eq!(p.unwrap().application(), b);
    }
}

#[test]
fn enclosed_result_is_extracted() {
    let output = b"boot\n%output-start\n  {\"cycles\": 12}\n\n%output-end";
    for b in [Benchmark::Rtos, Benchmark::Latency, Benchmark::ProfileSes, Benchmark::ProfileRtos] {
        assert_eq!(processor(b).process_output(output).unwrap(), Some(b"{\"cycles\": 12}".to_vec()));
    }
    // The last start marker counts, and the result may span lines.
    let output = b"%output-start old %output-end junk %output-start a\nb %output-end tail";
    assert_eq!(processor(Benchmark::Latency).process_output(output).unwrap(), Some(b"a\nb".to_vec()));
    assert_eq!(
        processor(Benchmark::Latency).process_output(b"%output-start%output-end").unwrap(),
        Some(Vec::new())
    );
}

#[test]
fn missing_enclosed_result_is_an_error() {
    for output in [&b""[..], b"%output-start only", b"only %output-end", b"%output-end %output-start"] {
        assert!(matches!(
            processor(Benchmark::Latency).process_output(output),
            Err(ProcessOutputError::NoEnclosedOutput)
        ));
    }
}

#[test]
fn coremark_score_is_reported_as_json() {
    let output = b"2K performance run parameters for coremark.\nCoreMark 1.0 : 123.45 / GCC\n* portable_fini - system halted";
    assert_eq!(
        processor(Benchmark::CoreMark).process_output(output).unwrap(),
        Some(b"{ \"score\": 123.45 }".to_vec())
    );
}

#[test]
fn coremark_error_goes_before_the_score() {
    let output = b"ERROR! list crc 0x1234\nCoreMark 1.0 : 10.0\n";
    match processor(Benchmark::CoreMark).process_output(output) {
        Err(ProcessOutputError::CoreMark(words)) => assert_eq!(words, b"list crc 0x1234".to_vec()),
        other => panic!("unexpected {:?}", other),
    }
    assert!(matches!(
        processor(Benchmark::CoreMark).process_output(b"nothing of interest"),
        Err(ProcessOutputError::NoScore)
    ));
    // The markers of the other benchmarks mean nothing to CoreMark.
    assert!(matches!(
        processor(Benchmark::CoreMark).process_output(b"%output-start 1 %output-end"),
        Err(ProcessOutputError::NoScore)
    ));
}

#[test]
fn results_from_what_the_patterns_found() {
    assert_eq!(result_from_enclosed(Some(b"r".to_vec())).unwrap(), Some(b"r".to_vec()));
    assert!(matches!(result_from_enclosed(None), Err(ProcessOutputError::NoEnclosedOutput)));
    assert_eq!(
        result_from_coremark(None, Some(b"7.5".to_vec())).unwrap(),
        Some(b"{ \"score\": 7.5 }".to_vec())
    );
    assert!(matches!(
        result_from_coremark(Some(b"bad".to_vec()), Some(b"7.5".to_vec())),
        Err(ProcessOutputError::CoreMark(ref w)) if w == b"bad"
    ));
    assert!(matches!(result_from_coremark(None, None), Err(ProcessOutputError::NoScore)));
}
