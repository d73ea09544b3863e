use nexus::alpha::{permits_reactor, AlphaAccess};
use nexus::arbitrator::IntentArbitrator;
use nexus::cancel::CancellationRegistry;
use nexus::consolidator::MemoryConsolidator;
use nexus::event::{InputEvent, Output, OutputId, OutputStatus};
use nexus::gate::{Claim, CrystallizationDecision, SymbolicSnapshot};
use nexus::intent::{DialogueAct, IntentState};
use nexus::planner::Intent;
use nexus::realizer::realize;
use nexus::scheduler::{Scheduler, SideEffect};
use nexus::score::{decay_pow, decay_step};
use nexus::speech::{SpeechIntent, SpeechPlanner};
use nexus::state::{SharedState, StateDelta};
use nexus::telemetry::{TelemetryEvent, TelemetryRecorder};
use nexus::text::fingerprint;
use nexus::tick::Tick;

#[test]
fn test_tick_counter() {
    let t = Tick::new();
    assert_eq!(t.frame, 0);
    assert_eq!(t.next().frame, 1);
}

#[test]
fn test_decay_arithmetic() {
    // One step at the intent decay rate loses three ten-thousandths.
    assert_eq!(decay_step(10000, 9997), 9997);
    // Two steps compose, the power carried at the fine scale.
    assert_eq!(decay_pow(10000, 9997, 2), 9994);
    // Across a long gap the fine-scale power tracks the rate taken to the
    // gap: 0.9997 to the 5000th is ~0.22308.
    assert_eq!(decay_pow(10000, 9997, 5000), 2230);
    // Zero never revives.
    assert_eq!(decay_pow(0, 9997, 1000), 0);
}

#[test]
fn test_fingerprint_is_content_addressed() {
    assert_eq!(fingerprint("what is gravity"), fingerprint("what is gravity"));
    assert_ne!(fingerprint("what is gravity"), fingerprint("what is taxes"));
    assert_ne!(fingerprint(""), fingerprint(" "));
}

#[test]
fn test_scheduler_formulas() {
    let s = Scheduler;
    let tick = Tick { frame: 7 };

    let (d, e) = s.schedule(Intent::DoNothing, tick, 0);
    assert!(d.is_none() && e.is_none());

    let (d, e) = s.schedule(Intent::Delay { ticks: 3 }, tick, 0);
    assert!(d.is_none());
    assert!(matches!(e, Some(SideEffect::Log(_))));

    let (d, e) = s.schedule(
        Intent::AskClarification { context: "weather".to_string() },
        tick,
        2,
    );
    match d {
        Some(StateDelta::OutputProposed(o)) => {
            assert_eq!(o.id, OutputId { tick: 7, ordinal: 2 });
            assert_eq!(o.content, "Could you clarify? Context: weather");
            assert_eq!(o.status, OutputStatus::Draft);
            assert_eq!(o.parent_id.as_deref(), Some("root_task"));
        }
        _ => panic!("Clarification must propose an output"),
    }
    match e {
        Some(SideEffect::SpawnAudio(id, text)) => {
            assert_eq!(id, OutputId { tick: 7, ordinal: 2 });
            assert_eq!(text, "Could you clarify? Context: weather");
        }
        _ => panic!("Clarification must spawn audio"),
    }
}

#[test]
fn test_realizer_hedges() {
    let snapshot = SymbolicSnapshot {
        claims: vec![Claim {
            content: "Visual context is stable.".to_string(),
            confidence: 9000,
            modality_support: vec!["Vision".to_string()],
        }],
        base_uncertainty: 0,
        timestamp: Tick { frame: 0 },
    };
    let hedged = realize(&snapshot, &CrystallizationDecision::AllowPartial);
    assert_eq!(hedged, "It seems that Visual context is stable....");
    let direct = realize(&snapshot, &CrystallizationDecision::AllowHard);
    assert_eq!(direct, "Visual context is stable..");
    assert!(!direct.starts_with("It seems"), "HardCommit should not hedge");
}

#[test]
fn test_arbitrator_classification() {
    let arb = IntentArbitrator::new();
    let idle = IntentState::Idle;

    match arb.assess("Turn on the lights", 1, &idle) {
        IntentState::Stable(c) => {
            assert_eq!(c.hypothesis, nexus::intent::IntentHypothesis::Command);
            assert_eq!(c.confidence, 9000);
        }
        other => panic!("Expected Stable intent, got {:?}", other),
    }

    match arb.assess("What is the weather like", 2, &idle) {
        IntentState::Stable(c) => {
            assert_eq!(c.hypothesis, nexus::intent::IntentHypothesis::Inquiry);
            assert_eq!(c.confidence, 8500);
        }
        other => panic!("Expected Stable inquiry, got {:?}", other),
    }

    let forming = arb.assess("maybe what?", 3, &idle);
    match &forming {
        IntentState::Forming(cs) => {
            assert_eq!(cs.len(), 1);
            assert_eq!(cs[0].confidence, 6000);
        }
        other => panic!("Expected Forming intent, got {:?}", other),
    }
    match arb.decide(&forming) {
        DialogueAct::AskClarification(m) => {
            assert_eq!(m, "Do you want me to respond?");
        }
        other => panic!("Reactor SHOULD speak to clarify, got {:?}", other),
    }

    let thinking = arb.assess("um well", 4, &idle);
    assert!(matches!(arb.decide(&thinking), DialogueAct::StaySilent));

    let statement = arb.assess("The weather is nice here", 5, &idle);
    assert!(matches!(arb.decide(&statement), DialogueAct::StaySilent));

    let stable = arb.assess("turn off the fan", 6, &idle);
    assert!(
        matches!(arb.decide(&stable), DialogueAct::Wait),
        "Stable intent is handed off, never spoken about"
    );
}

#[test]
fn test_suspended_guard() {
    let arb = IntentArbitrator::new();
    let suspended = match arb.assess("turn on the tv", 1, &IntentState::Idle) {
        IntentState::Stable(c) => IntentState::Suspended(c),
        _ => panic!("setup failed"),
    };
    // Short noise never breaks a suspended intent.
    assert!(matches!(
        arb.assess("uh", 2, &suspended),
        IntentState::Suspended(_)
    ));
    // Substantive text re-assesses.
    assert!(matches!(
        arb.assess("what is the capital of France", 2, &suspended),
        IntentState::Stable(_)
    ));
}

#[test]
fn test_stop_phrase_is_exact() {
    let reg = CancellationRegistry::new();
    let stops = reg.process(&vec![InputEvent::text("user", "  Stop \n")]);
    assert_eq!(stops.len(), 1);
    match &stops[0] {
        StateDelta::TaskCanceled(t) => assert_eq!(t, "root_task"),
        _ => panic!("A stop phrase cancels the root task"),
    }
    // A sentence merely containing the word is not a stop signal.
    let none = reg.process(&vec![InputEvent::text("user", "please stop the music")]);
    assert!(none.is_empty());
}

#[test]
fn test_reduce_tick_decays() {
    let mut s = SharedState::new();
    s.turn_pressure = 500;
    s.visual.stability_score = 450;
    s.latents.slots.push(nexus::latent::LatentSlot {
        values: vec![10000],
        confidence: 600,
        created_at: Tick { frame: 0 },
        modality: nexus::latent::Modality::Audio,
        decay_rate: 1000,
    });
    s.reduce(StateDelta::Tick(Tick { frame: 1 }));
    assert_eq!(s.turn_pressure, 400, "Pressure decays while the user is silent");
    assert_eq!(s.visual.stability_score, 350, "Stability decays each tick");
    // 600 * 0.9 = 540 survives the pruning floor.
    assert_eq!(s.latents.slots[0].confidence, 540);
    s.reduce(StateDelta::Tick(Tick { frame: 2 }));
    // 540 * 0.9 = 486 falls to the floor and the slot is pruned.
    assert!(s.latents.slots.is_empty(), "Dead slots are pruned");
}

#[test]
fn test_cancel_twice_equals_once() {
    let mut s = SharedState::new();
    let id = OutputId { tick: 3, ordinal: 0 };
    s.reduce(StateDelta::OutputProposed(Output {
        id,
        content: "x".to_string(),
        status: OutputStatus::SoftCommit,
        proposed_at: Tick { frame: 3 },
        committed_at: None,
        parent_id: None,
    }));
    s.reduce(StateDelta::OutputCanceled(id));
    let once = s.active_outputs[0].status;
    s.reduce(StateDelta::OutputCanceled(id));
    assert_eq!(s.active_outputs[0].status, once);
    assert_eq!(once, OutputStatus::Canceled);
    // Canceled is absorbing: a later commit changes nothing.
    s.reduce(StateDelta::OutputCommitted(id));
    assert_eq!(s.active_outputs[0].status, OutputStatus::Canceled);
}

#[test]
fn test_invalid_presence_transition_is_noop() {
    let mut s = SharedState::new();
    let before = s.presence;
    s.reduce(StateDelta::PresenceTransition(
        nexus::presence::PresenceRequest::OutputCompleted,
    ));
    assert_eq!(s.presence, before, "An invalid transition leaves the state unchanged");
}

#[test]
fn test_telemetry_ring_is_bounded() {
    let mut rec = TelemetryRecorder::new();
    for i in 0..10005u64 {
        rec.record(TelemetryEvent::SilencePeriod { duration_ticks: i });
    }
    assert_eq!(rec.buffer.len(), 10000);
    // The oldest events fell out.
    match rec.buffer[0] {
        TelemetryEvent::SilencePeriod { duration_ticks } => assert_eq!(duration_ticks, 5),
        _ => panic!("unexpected event"),
    }
}

#[test]
fn test_metrics_snapshot() {
    let mut rec = TelemetryRecorder::new();
    rec.record(TelemetryEvent::SilencePeriod { duration_ticks: 4 });
    rec.record(TelemetryEvent::SilencePeriod { duration_ticks: 8 });
    rec.record(TelemetryEvent::Interruption {
        source: nexus::telemetry::InterruptionSource::ExplicitCancel,
        cancel_latency_ticks: 2,
    });
    let snap = rec.snapshot();
    assert_eq!(snap.silence_stats.total_periods, 2);
    assert_eq!(snap.silence_stats.total_ticks, 12);
    assert_eq!(snap.silence_stats.avg_silence_ticks, 6);
    assert_eq!(snap.silence_stats.max_silence_ticks, 8);
    assert_eq!(snap.interruption_stats.count, 1);
    assert_eq!(snap.interruption_stats.avg_cancel_latency_ticks, 2);
}

#[test]
fn test_session_summary_share() {
    let mut rec = TelemetryRecorder::new();
    rec.record(TelemetryEvent::SilencePeriod { duration_ticks: 50 });
    match rec.aggregate_session(100) {
        TelemetryEvent::SessionSummary { duration_ticks, silence_share, .. } => {
            assert_eq!(duration_ticks, 100);
            assert_eq!(silence_share, 5000, "Half the run was silent");
        }
        _ => panic!("unexpected event"),
    }
}

#[test]
fn test_speech_planner_safe_mode() {
    let p = SpeechPlanner::new();
    let act = DialogueAct::AskClarification("why?".to_string());
    assert!(p.plan(&act, true).is_none(), "Safe mode silences everything");
    match p.plan(&act, false) {
        Some(SpeechIntent::Clarification(m)) => assert_eq!(m, "why?"),
        _ => panic!("Clarification should map through"),
    }
    assert!(p.plan(&DialogueAct::Wait, false).is_none());
}

#[test]
fn test_alpha_gating() {
    assert!(!permits_reactor(&None), "A missing marker suppresses the reactor");
    let mut granted = AlphaAccess::granted(42);
    assert!(permits_reactor(&Some(granted.clone())));
    granted.enabled = false;
    assert!(!permits_reactor(&Some(granted)), "A disabled marker suppresses the reactor");
}

#[test]
fn test_consolidator_ingestion_threshold() {
    let cons = MemoryConsolidator::new();
    let state = SharedState::new();
    let mut telemetry = TelemetryRecorder::new();
    let arb = IntentArbitrator::new();

    // A stable command clears the ingestion bar.
    let stable = match arb.assess("turn on the heater", 1, &IntentState::Idle) {
        IntentState::Stable(c) => c,
        _ => panic!("setup failed"),
    };
    let deltas = cons.process_intent(&stable, &state, &mut telemetry);
    assert_eq!(deltas.len(), 1);
    assert!(matches!(deltas[0], StateDelta::MemoryCandidateCreated(_)));

    // An unstable statement leaves no trace.
    let weak = match arb.assess("The weather is nice here", 2, &IntentState::Idle) {
        IntentState::Forming(mut cs) => cs.remove(0),
        _ => panic!("setup failed"),
    };
    let deltas = cons.process_intent(&weak, &state, &mut telemetry);
    assert!(deltas.is_empty(), "Fleeting thoughts are never remembered");
}

#[test]
fn test_turn_pressure_clamps() {
    let mut s = SharedState::new();
    s.user_speaking = true;
    s.reduce(StateDelta::OutputProposed(Output {
        id: OutputId { tick: 0, ordinal: 0 },
        content: "x".to_string(),
        status: OutputStatus::Draft,
        proposed_at: Tick { frame: 0 },
        committed_at: None,
        parent_id: None,
    }));
    s.reduce(StateDelta::Tick(Tick { frame: 1 }));
    assert_eq!(s.turn_pressure, 1000, "Pressure rises while speaking over output");
    for f in 2..20u64 {
        s.reduce(StateDelta::Tick(Tick { frame: f }));
    }
    assert_eq!(s.turn_pressure, 10000, "Pressure clamps at one");
    s.user_speaking = false;
    s.reduce(StateDelta::Tick(Tick { frame: 20 }));
    assert_eq!(s.turn_pressure, 9900, "Pressure decays from peak once silent");
}
