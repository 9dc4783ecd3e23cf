use diktovani::audio::{
    get_optimal_config, input_encoding, rates_are_covered, InputConfig, SampleEncoding,
    SampleFormat,
};
use diktovani::recorder::{CommandReply, Finalized, RecorderState};
use diktovani::samples::{
    chunk_count, extract_whisper_samples_from_wav, resample_chunk, resampling, wav_spec, Decoded,
};
use diktovani::wav::{HeaderUpdate, ProgressiveWavWriter};

fn config(channels: u16, min: u32, max: u32, format: SampleFormat) -> InputConfig {
    InputConfig { channels, min_sample_rate: min, max_sample_rate: max, sample_format: format }
}

#[test]
fn mono_at_the_wanted_rate_comes_first() {
    let configs = vec![
        config(2, 8000, 48000, SampleFormat::F32),
        config(1, 8000, 48000, SampleFormat::Other),
        config(1, 16000, 16000, SampleFormat::I16),
        config(1, 8000, 48000, SampleFormat::F32),
    ];
    let choice = get_optimal_config(Ok(configs), Some(16000)).unwrap();
    assert_eq!(choice.config, 2);
    assert_eq!(choice.sample_rate, 16000);
    assert_eq!(choice.channels, 1);
    assert_eq!(choice.sample_format, SampleFormat::I16);
}

#[test]
fn any_channels_at_the_wanted_rate_come_second() {
    let configs = vec![
        config(1, 44100, 48000, SampleFormat::F32),
        config(4, 16000, 16000, SampleFormat::U16),
    ];
    let choice = get_optimal_config(Ok(configs), None).unwrap();
    assert_eq!((choice.config, choice.channels, choice.sample_rate), (1, 4, 16000));
}

#[test]
fn the_closest_mono_rate_comes_last() {
    let configs = vec![
        config(1, 44100, 48000, SampleFormat::F32),
        config(1, 4000, 8000, SampleFormat::F32),
        config(1, 24000, 48000, SampleFormat::F32),
        config(2, 17000, 48000, SampleFormat::F32),
    ];
    let choice = get_optimal_config(Ok(configs), Some(16000)).unwrap();
    assert_eq!((choice.config, choice.sample_rate), (1, 8000));
}

#[test]
fn broken_configurations_are_passed_over() {
    let broken = config(1, 48000, 8000, SampleFormat::F32);
    let exact = config(1, 16000, 16000, SampleFormat::F32);
    let near = config(1, 18000, 18000, SampleFormat::F32);
    assert!(rates_are_covered(&vec![broken, exact], 16000));
    assert_eq!(get_optimal_config(Ok(vec![broken, exact]), None).unwrap().config, 1);
    assert!(rates_are_covered(&vec![near, broken], 16000));
    assert_eq!(get_optimal_config(Ok(vec![near, broken]), None).unwrap().config, 0);
    assert!(!rates_are_covered(&vec![broken, near], 16000));
    assert!(!rates_are_covered(&vec![broken], 16000));
    assert!(rates_are_covered(&vec![], 16000));
}

#[test]
fn no_configuration_has_its_errors() {
    let text = |configs| get_optimal_config(configs, None).unwrap_err().text();
    assert_eq!(text(Err("gone".to_string())), "Failed to enumerate input configs: gone");
    assert_eq!(text(Ok(vec![])), "No supported input configurations were found.");
    assert_eq!(
        text(Ok(vec![config(1, 1, 96000, SampleFormat::Other)])),
        "No compatible microphone formats were found."
    );
    assert_eq!(
        text(Ok(vec![config(2, 44100, 48000, SampleFormat::F32)])),
        "Failed to choose a microphone config."
    );
}

#[test]
fn encodings_are_told_apart() {
    assert_eq!(input_encoding(SampleFormat::F32, "F32").unwrap(), SampleEncoding::F32);
    assert_eq!(input_encoding(SampleFormat::I16, "I16").unwrap(), SampleEncoding::I16);
    assert_eq!(input_encoding(SampleFormat::U16, "U16").unwrap(), SampleEncoding::U16);
    assert_eq!(
        input_encoding(SampleFormat::Other, "F64").unwrap_err().text(),
        "Unsupported sample format: F64"
    );
}

fn apply(file: &mut Vec<u8>, update: &HeaderUpdate) {
    let riff = update.riff_size_pos as usize;
    file[riff..riff + 4].copy_from_slice(&update.riff_size);
    let data = update.data_size_pos as usize;
    file[data..data + 4].copy_from_slice(&update.data_size);
}

fn recorded(rate: u32, channels: u16, samples: &[f32]) -> Vec<u8> {
    let (mut writer, mut file) = ProgressiveWavWriter::new(rate, channels);
    let bits: Vec<u32> = samples.iter().map(|s| s.to_bits()).collect();
    file.extend(writer.write_samples_f32(&bits));
    assert_eq!(writer.samples_written(), samples.len() as u64);
    apply(&mut file, &writer.update_headers());
    file
}

#[test]
fn header_of_a_recording() {
    let (writer, file) = ProgressiveWavWriter::new(16000, 2);
    let mut expected = b"RIFF\0\0\0\0WAVEfmt \x10\0\0\0\x03\0\x02\0".to_vec();
    expected.extend(16000u32.to_le_bytes());
    expected.extend(128000u32.to_le_bytes());
    expected.extend(8u16.to_le_bytes());
    expected.extend(32u16.to_le_bytes());
    expected.extend(b"data\0\0\0\0");
    assert_eq!(file, expected);
    assert!(!writer.is_update_due(0));
    assert!(writer.is_update_due(1));
}

#[test]
fn sizes_follow_the_samples() {
    let file = recorded(48000, 1, &[0.0, 1.0, -1.0]);
    assert_eq!(file.len(), 44 + 12);
    assert_eq!(file[4..8], 48u32.to_le_bytes());
    assert_eq!(file[40..44], 12u32.to_le_bytes());
    assert_eq!(file[48..52], 1.0f32.to_le_bytes());
}

#[test]
fn a_recording_in_parts_is_complete() {
    let (mut writer, mut file) = ProgressiveWavWriter::new(8000, 1);
    let parts: [&[u32]; 3] = [&[1, 2], &[], &[u32::MAX]];
    for part in parts {
        file.extend(writer.write_samples_f32(part));
        apply(&mut file, &writer.update_headers());
    }
    assert_eq!(file.len(), 44 + 12);
    assert_eq!(file[4..8], 48u32.to_le_bytes());
    assert_eq!(file[40..44], 12u32.to_le_bytes());
    assert_eq!(file[44..], [1, 0, 0, 0, 2, 0, 0, 0, 255, 255, 255, 255]);
    let finished = file.clone();
    apply(&mut file, &writer.update_headers());
    assert_eq!(file, finished);
}

#[test]
fn a_recording_is_read_back() {
    let samples = [0.25f32, -0.5, 1.0, 0.0];
    let file = recorded(16000, 2, &samples);
    let spec = wav_spec(&file).unwrap();
    assert_eq!((spec.channels, spec.sample_rate, spec.bits_per_sample), (2, 16000, 32));
    assert!(spec.is_float);
    let mut reader = hound::WavReader::new(&file[..]).unwrap();
    let read: Vec<f32> = reader.samples::<f32>().map(|s| s.unwrap()).collect();
    assert_eq!(read, samples);
    let bits: Vec<u32> = read.iter().map(|s| s.to_bits()).collect();
    let extraction = extract_whisper_samples_from_wav(&file, Ok(bits.clone())).unwrap();
    assert_eq!(extraction.channels, 2);
    assert_eq!(extraction.resample_from, None);
    match extraction.samples {
        Decoded::Float(list) => assert_eq!(list, bits),
        _ => panic!("floating-point samples were expected"),
    }
}

fn integer_wav(bits: u16, rate: u32, samples: &[i32]) -> Vec<u8> {
    let spec = hound::WavSpec {
        channels: 1,
        sample_rate: rate,
        bits_per_sample: bits,
        sample_format: hound::SampleFormat::Int,
    };
    let mut cursor = std::io::Cursor::new(Vec::new());
    let mut writer = hound::WavWriter::new(&mut cursor, spec).unwrap();
    for sample in samples {
        writer.write_sample(*sample).unwrap();
    }
    writer.finalize().unwrap();
    cursor.into_inner()
}

#[test]
fn integer_samples_are_read() {
    let file = integer_wav(16, 44100, &[1, -32768, 32767]);
    let extraction = extract_whisper_samples_from_wav(&file, Err("unused".to_string())).unwrap();
    assert_eq!(extraction.resample_from, Some(44100));
    match extraction.samples {
        Decoded::Int16(list) => assert_eq!(list, vec![1, -32768, 32767]),
        _ => panic!("short samples were expected"),
    }
    let file = integer_wav(32, 16000, &[7, i32::MIN]);
    let extraction = extract_whisper_samples_from_wav(&file, Err("unused".to_string())).unwrap();
    match extraction.samples {
        Decoded::Int32(list) => assert_eq!(list, vec![7, i32::MIN]),
        _ => panic!("long samples were expected"),
    }
}

#[test]
fn unreadable_files_are_refused() {
    let error = extract_whisper_samples_from_wav(b"no wav", Ok(vec![])).unwrap_err();
    let expected = match hound::WavReader::new(&b"no wav"[..]) {
        Ok(_) => panic!("an error was expected"),
        Err(err) => format!("WAV error: {err}"),
    };
    assert_eq!(error.text(), expected);
    assert_eq!(wav_spec(b"no wav").unwrap_err().text(), expected);
    let file = recorded(16000, 1, &[0.0]);
    let error = extract_whisper_samples_from_wav(&file, Err("broken".to_string())).unwrap_err();
    assert_eq!(error.text(), "WAV error: broken");
}

#[test]
fn odd_depths_and_low_rates_are_refused() {
    let file = integer_wav(8, 16000, &[1]);
    assert_eq!(
        extract_whisper_samples_from_wav(&file, Ok(vec![])).unwrap_err().text(),
        "Unsupported WAV bit depth: 8"
    );
    let file = integer_wav(16, 1999, &[1]);
    assert_eq!(
        extract_whisper_samples_from_wav(&file, Ok(vec![])).unwrap_err().text(),
        "Input sample rate 1999 Hz is too low for resampling."
    );
    assert_eq!(resampling(2000).unwrap(), Some(2000));
    assert_eq!(resampling(16000).unwrap(), None);
}

#[test]
fn chunks_hold_all_samples() {
    assert_eq!(chunk_count(0), 0);
    assert_eq!(chunk_count(1024), 1);
    assert_eq!(chunk_count(1025), 2);
    let samples: Vec<u32> = (1..=1500).collect();
    let mut all = resample_chunk(&samples, 0);
    all.extend(resample_chunk(&samples, 1));
    assert_eq!(all.len(), 2048);
    assert_eq!(all[..1500], samples[..]);
    assert!(all[1500..].iter().all(|s| *s == 0));
}

fn microphone() -> Option<Result<Vec<InputConfig>, String>> {
    Some(Ok(vec![config(1, 8000, 48000, SampleFormat::F32)]))
}

#[test]
fn a_session_runs_from_start_to_stop() {
    let mut recorder = RecorderState::new();
    assert!(!recorder.is_recording());
    let plan = recorder.start_new_recording(Ok(1_700_000_000_123), microphone()).unwrap();
    assert_eq!(plan.file_name, "whispering-mvp-1700000000123.wav");
    recorder.open_session("/tmp/x.wav", plan.choice, Ok(())).unwrap();
    assert!(!recorder.is_recording());
    recorder.confirm_start(CommandReply::Confirmed).unwrap();
    assert!(recorder.is_recording());
    recorder.stop_recording(CommandReply::Confirmed).unwrap();
    assert!(!recorder.is_recording());
    let recording = recorder.finish_recording(Finalized::Done(32000)).unwrap();
    assert_eq!(recording.file_path, "/tmp/x.wav");
    assert_eq!((recording.sample_rate, recording.channels), (16000, 1));
    assert_eq!(recording.samples, 32000);
    assert_eq!(
        recorder.stop_recording(CommandReply::Confirmed).unwrap_err().text(),
        "No active recording session."
    );
}

#[test]
fn sessions_fail_to_start() {
    let mut recorder = RecorderState::new();
    assert_eq!(
        recorder.start_new_recording(Err("early".to_string()), None).unwrap_err().text(),
        "Failed to create temp filename: early"
    );
    assert_eq!(
        recorder.start_new_recording(Ok(1), None).unwrap_err().text(),
        "No default input device available."
    );
    assert_eq!(
        recorder.start_new_recording(Ok(1), Some(Ok(vec![]))).unwrap_err().text(),
        "No supported input configurations were found."
    );
    assert_eq!(
        recorder.confirm_start(CommandReply::Confirmed).unwrap_err().text(),
        "Recording session failed to initialize."
    );
    assert_eq!(
        recorder.finish_recording(Finalized::Done(1)).unwrap_err().text(),
        "Missing WAV writer."
    );
    let plan = recorder.start_new_recording(Ok(1), microphone()).unwrap();
    assert_eq!(
        recorder.open_session("/x", plan.choice, Err("full".to_string())).unwrap_err().text(),
        "IO error: full"
    );
}

#[test]
fn commands_fail() {
    let mut recorder = RecorderState::new();
    let plan = recorder.start_new_recording(Ok(1), microphone()).unwrap();
    recorder.open_session("/x", plan.choice, Ok(())).unwrap();
    let not_sent = || CommandReply::NotSent("a".to_string());
    let no_reply = || CommandReply::NoReply("b".to_string());
    assert_eq!(
        recorder.confirm_start(not_sent()).unwrap_err().text(),
        "Failed to send start command: a"
    );
    assert_eq!(
        recorder.confirm_start(no_reply()).unwrap_err().text(),
        "Failed to receive start confirmation: b"
    );
    assert!(!recorder.is_recording());
    recorder.confirm_start(CommandReply::Confirmed).unwrap();
    assert_eq!(
        recorder.stop_recording(not_sent()).unwrap_err().text(),
        "Failed to send stop command: a"
    );
    assert_eq!(
        recorder.stop_recording(no_reply()).unwrap_err().text(),
        "Failed to receive stop confirmation: b"
    );
    assert!(recorder.is_recording());
    recorder.stop_recording(CommandReply::Confirmed).unwrap();
    assert_eq!(
        recorder.finish_recording(Finalized::Locked("c".to_string())).unwrap_err().text(),
        "Failed to lock WAV writer: c"
    );
    assert_eq!(
        recorder.finish_recording(Finalized::Failed("d".to_string())).unwrap_err().text(),
        "IO error: d"
    );
    recorder.close_session();
    assert!(!recorder.is_recording());
}
