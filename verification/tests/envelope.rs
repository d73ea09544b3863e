use nexus::event::AudioSignal;
use nexus::vad::AudioMonitor;

// The chunk energy the kernel works with: the root-mean-square of the
// samples, as a fixed-point fraction of one in ten-thousandths.
fn energy(samples: &[f32]) -> u32 {
    if samples.is_empty() {
        return 0;
    }
    let sq_sum: f32 = samples.iter().map(|&x| x * x).sum();
    let rms = (sq_sum / samples.len() as f32).sqrt();
    (rms * 10000.0).round() as u32
}

#[test]
fn test_adaptive_thresholding() {
    let mut monitor = AudioMonitor::new(48000);

    // 1. Normal mode: baseline threshold 0.03.
    let silence = vec![0.01f32; 480];
    assert_eq!(
        monitor.process(energy(&silence), silence.len()),
        None,
        "Silence should be ignored"
    );

    let speech = vec![0.1f32; 480];
    for _ in 0..11 {
        assert_eq!(
            monitor.process(energy(&speech), speech.len()),
            None,
            "Accumulating speech..."
        );
    }
    assert_eq!(
        monitor.process(energy(&speech), speech.len()),
        Some(AudioSignal::SpeechStart),
        "Should trigger SpeechStart"
    );

    let long_silence = vec![0.0f32; 48000];
    monitor.process(energy(&long_silence), long_silence.len());

    println!("Step 1 passed: Normal sensitivity works.");

    // 2. System speaking: threshold raised to 0.09.
    monitor.set_system_speaking(true);

    let echo = vec![0.08f32; 480];
    for _ in 0..20 {
        assert_eq!(
            monitor.process(energy(&echo), echo.len()),
            None,
            "Echo (0.08) should be ignored when System Speaking (Thresh 0.09)"
        );
    }

    let shout = vec![0.2f32; 480];
    for _ in 0..11 {
        monitor.process(energy(&shout), shout.len());
    }
    assert_eq!(
        monitor.process(energy(&shout), shout.len()),
        Some(AudioSignal::SpeechStart),
        "Shout (0.2) should punch through"
    );

    monitor.process(energy(&long_silence), long_silence.len());

    println!("Step 2 passed: System Speaking raises threshold.");

    // 3. Grace period: the echo tail stays protected.
    monitor.set_system_speaking(false);

    for _ in 0..20 {
        assert_eq!(
            monitor.process(energy(&echo), echo.len()),
            None,
            "Echo tail should be ignored in Grace Period"
        );
    }

    println!("Step 3 passed: Grace Period protects against tails.");

    // 4. Recovery after the grace period.
    let passage_of_time = vec![0.0f32; 24000];
    monitor.process(energy(&passage_of_time), passage_of_time.len());

    let soft_speech = vec![0.05f32; 480];
    for _ in 0..11 {
        monitor.process(energy(&soft_speech), soft_speech.len());
    }
    assert_eq!(
        monitor.process(energy(&soft_speech), soft_speech.len()),
        Some(AudioSignal::SpeechStart),
        "Should recover normal sensitivity"
    );

    println!("Step 4 passed: Recovery successful.");
}
