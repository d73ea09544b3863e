use nexus::event::{AudioSignal, Event, InputContent, InputEvent, Output, OutputId, OutputStatus};
use nexus::gate::CrystallizationDecision;
use nexus::intent::{IntentCandidate, IntentHypothesis, IntentStability, IntentState};
use nexus::latent::{LatentSlot, Modality};
use nexus::lhim::IntentStatus;
use nexus::memory::{MemoryConsentState, MemoryKey};
use nexus::planner::{Intent, PlanningEpoch};
use nexus::reactor::{KernelMode, Reactor, ReactorConfig};
use nexus::scheduler::SideEffect;
use nexus::state::StateDelta;
use nexus::text::fingerprint;
use nexus::tick::Tick;

fn reactor() -> Reactor {
    Reactor::new(ReactorConfig { safe_mode: false })
}

fn text_event(text: &str) -> Event {
    Event::Input(InputEvent::text("user", text))
}

fn audio_event(sig: AudioSignal) -> Event {
    Event::Input(InputEvent {
        source: "user".to_string(),
        content: InputContent::Audio(sig),
    })
}

fn provisional(text: &str, source_id: u64) -> Event {
    Event::Input(InputEvent {
        source: "asr".to_string(),
        content: InputContent::ProvisionalText {
            content: text.to_string(),
            confidence: 9000,
            source_id,
        },
    })
}

fn spawn_count(effects: &[SideEffect]) -> usize {
    effects
        .iter()
        .filter(|e| matches!(e, SideEffect::SpawnAudio(_, _)))
        .count()
}

fn has_stop_audio(effects: &[SideEffect]) -> bool {
    effects.iter().any(|e| matches!(e, SideEffect::StopAudio))
}

#[test]
fn test_stale_plan_rejection() {
    let mut r = reactor();

    let out = r.tick_step(vec![text_event("Hi")]);
    assert_eq!(spawn_count(&out.effects), 0);
    let v_after_input = r.state.version;
    assert!(v_after_input > 0, "Input must advance the version");

    // A proposal carrying a version far behind the acceptance window.
    let stale = Event::PlanProposed(
        PlanningEpoch { tick: Tick { frame: 0 }, state_version: 1 },
        Intent::BeginResponse { confidence: 9000 },
    );
    let out = r.tick_step(vec![stale]);
    assert_eq!(spawn_count(&out.effects), 0, "Stale plan should not produce effects");
    assert!(r.state.active_outputs.is_empty(), "Stale plan should not mutate state");

    // The zero debug epoch is always admitted; with a quiescent slate the
    // gate allows a direct response.
    let injected = Event::PlanProposed(
        PlanningEpoch { tick: Tick { frame: 0 }, state_version: 0 },
        Intent::BeginResponse { confidence: 9000 },
    );
    let out = r.tick_step(vec![injected]);
    assert_eq!(spawn_count(&out.effects), 1, "Valid intent should be accepted");
    assert_eq!(r.state.active_outputs.len(), 1);
}

#[test]
fn test_interruption_mid_output() {
    let mut r = reactor();
    r.state.reduce(StateDelta::OutputProposed(Output {
        id: OutputId { tick: 1, ordinal: 0 },
        content: "Speaking...".to_string(),
        status: OutputStatus::Draft,
        proposed_at: Tick { frame: 1 },
        committed_at: None,
        parent_id: Some("root_task".to_string()),
    }));
    r.state.active_intents.push(nexus::lhim::LongHorizonIntent {
        id: 7,
        hypothesis: IntentHypothesis::Command,
        source_symbol_ids: vec![1],
        created_at: Tick { frame: 0 },
        last_active_at: Tick { frame: 0 },
        last_updated_at: Tick { frame: 0 },
        suspended_at: None,
        decay_score: 10000,
        status: IntentStatus::Active,
    });

    let out = r.tick_step(vec![audio_event(AudioSignal::SpeechStart)]);

    assert_eq!(
        r.state.active_outputs[0].status,
        OutputStatus::Canceled,
        "Output should be canceled by SpeechStart"
    );
    assert!(has_stop_audio(&out.effects));
    assert!(r.state.user_speaking, "User should be marked speaking");
    assert_eq!(
        r.state.active_intents[0].status,
        IntentStatus::Suspended,
        "Active intents must be suspended on interruption"
    );
}

#[test]
fn test_gate_denies_under_uncertainty() {
    let mut r = reactor();
    r.state.latents.slots.push(LatentSlot {
        values: vec![10000],
        confidence: 1000,
        created_at: Tick { frame: 0 },
        modality: Modality::Audio,
        decay_rate: 0,
    });

    let proposal = Event::PlanProposed(
        PlanningEpoch { tick: Tick { frame: 0 }, state_version: 0 },
        Intent::BeginResponse { confidence: 9000 },
    );
    let out = r.tick_step(vec![proposal]);

    assert_eq!(out.gate_decision, CrystallizationDecision::Deny);
    assert!(r.state.active_outputs.is_empty(), "No output may crystallize under high uncertainty");
    assert_eq!(spawn_count(&out.effects), 0, "No audio may be spawned under high uncertainty");
}

#[test]
fn test_hesitation_detection() {
    let mut r = reactor();
    r.tick_step(vec![audio_event(AudioSignal::SpeechStart)]);
    r.tick_step(vec![]);
    r.tick_step(vec![]);
    r.tick_step(vec![audio_event(AudioSignal::SpeechEnd)]);
    assert!(r.state.hesitation_detected, "Short burst should trigger hesitation");

    let mut r = reactor();
    r.tick_step(vec![audio_event(AudioSignal::SpeechStart)]);
    for _ in 0..15 {
        r.tick_step(vec![]);
    }
    r.tick_step(vec![audio_event(AudioSignal::SpeechEnd)]);
    assert!(!r.state.hesitation_detected, "Long speech should NOT trigger hesitation");
}

#[test]
fn test_memory_promotion() {
    let mut r = reactor();
    let phrase = "turn on the light";
    let key = MemoryKey {
        hypothesis: IntentHypothesis::Command,
        symbol_fingerprint: fingerprint(phrase),
    };

    // First sighting opens a candidate.
    r.tick_step(vec![provisional(phrase, 1)]);
    assert_eq!(r.state.memory_candidates.len(), 1, "Should have 1 candidate");
    assert!(r.state.long_term_memory.is_empty(), "Nothing may be promoted immediately");

    // Consent is granted for this key.
    r.tick_step(vec![Event::Input(InputEvent {
        source: "ui".to_string(),
        content: InputContent::MemoryConsentResponse {
            key,
            state: MemoryConsentState::Granted,
        },
    })]);

    // The consolidation window passes.
    for _ in 0..1200 {
        r.tick_step(vec![]);
    }

    // Two further sightings reinforce past the threshold; the same step's
    // maintenance promotes.
    r.tick_step(vec![provisional(phrase, 2), provisional(phrase, 3)]);
    r.tick_step(vec![]);

    assert!(
        r.state.memory_candidates.is_empty(),
        "Candidate should be promoted/removed"
    );
    assert_eq!(r.state.long_term_memory.len(), 1, "Long term memory should have 1 record");
    assert_eq!(r.state.long_term_memory[0].id, key.id());
    let snap = r.telemetry.snapshot();
    assert_eq!(snap.memory_stats.promoted, 1, "Promotion must be recorded");
}

#[test]
fn test_silent_resumption() {
    let mut r = reactor();

    // Register a stable intent grounded in symbol 5.
    r.tick_step(vec![provisional("turn on the lamp", 5)]);
    assert_eq!(r.state.active_intents.len(), 1);
    assert_eq!(r.state.active_intents[0].status, IntentStatus::Active);
    let id = r.state.active_intents[0].id;

    // An interruption suspends it with the immediate penalty.
    r.tick_step(vec![audio_event(AudioSignal::SpeechStart)]);
    assert_eq!(r.state.active_intents[0].status, IntentStatus::Suspended);
    let suspended_score = r.state.active_intents[0].decay_score;
    r.tick_step(vec![audio_event(AudioSignal::SpeechEnd)]);

    // A related symbol forms again; a quiet tick resumes the intent.
    r.state.intent_state = IntentState::Forming(vec![IntentCandidate {
        id: 99,
        hypothesis: IntentHypothesis::Fragment,
        confidence: 4000,
        source_symbol_ids: vec![5],
        stability: IntentStability::Ambiguous,
        fingerprint: 99,
    }]);
    let out = r.tick_step(vec![]);

    let resumed = r
        .state
        .active_intents
        .iter()
        .find(|i| i.id == id)
        .expect("Should resume on context match");
    assert_eq!(resumed.status, IntentStatus::Active);
    assert!(
        resumed.decay_score <= suspended_score + 1000,
        "Resumption boosts by at most the resume boost"
    );
    assert!(out.effects.is_empty(), "Resumption should be silent");
}

#[test]
fn test_onboarding_discards_input() {
    let mut r = reactor();
    r.set_mode(KernelMode::Onboarding);
    r.tick_step(vec![audio_event(AudioSignal::SpeechStart)]);
    assert!(!r.state.user_speaking, "Onboarding must silently discard user input");
    assert!(r.state.audio_segments.is_empty());
}

#[test]
fn test_identical_runs_agree() {
    // Two identically driven reactors reach identical versions and clocks,
    // telemetry notwithstanding.
    let mut a = reactor();
    let mut b = reactor();
    let script = |r: &mut Reactor| {
        r.tick_step(vec![text_event("Hi")]);
        r.tick_step(vec![audio_event(AudioSignal::SpeechStart)]);
        r.tick_step(vec![]);
        r.tick_step(vec![audio_event(AudioSignal::SpeechEnd)]);
        r.tick_step(vec![provisional("turn on the fan", 2)]);
        for _ in 0..10 {
            r.tick_step(vec![]);
        }
    };
    script(&mut a);
    script(&mut b);
    assert_eq!(a.state.version, b.state.version, "State versions should match");
    assert_eq!(a.tick, b.tick, "Ticks should match");
    assert_eq!(a.state.active_outputs.len(), b.state.active_outputs.len());
}

#[test]
fn test_stop_phrase_cancels_root_task() {
    let mut r = reactor();
    r.state.reduce(StateDelta::OutputProposed(Output {
        id: OutputId { tick: 1, ordinal: 0 },
        content: "It seems...".to_string(),
        status: OutputStatus::SoftCommit,
        proposed_at: Tick { frame: 1 },
        committed_at: None,
        parent_id: Some("root_task".to_string()),
    }));

    let out = r.tick_step(vec![text_event("  STOP  ")]);

    assert!(has_stop_audio(&out.effects), "A stop phrase must stop audio");
    assert_eq!(
        r.state.active_outputs[0].status,
        OutputStatus::Canceled,
        "SoftCommit should be canceled on interruption"
    );
    assert!(out.planner_abort, "Any input aborts the in-flight planner request");
}

#[test]
fn test_version_strictly_advances() {
    let mut r = reactor();
    let mut last = r.state.version;
    for _ in 0..5 {
        r.tick_step(vec![]);
        assert!(r.state.version > last);
        last = r.state.version;
    }
}

#[test]
fn test_planner_dispatch_epoch() {
    let mut r = reactor();
    let out = r.tick_step(vec![]);
    let snap = out.planner_dispatch.expect("Quiescent state should dispatch a plan request");
    assert_eq!(Some(snap.epoch.state_version), r.last_planned_version);
    assert!(!snap.user_active);
    assert_eq!(snap.active_outputs, 0);

    // The same version is not dispatched twice.
    let v = r.last_planned_version;
    let out = r.tick_step(vec![]);
    // The version advanced (tick delta), so a new dispatch goes out.
    assert!(out.planner_dispatch.is_some());
    assert!(r.last_planned_version != v);
}

#[test]
fn test_visual_stability_dynamics() {
    let mut r = reactor();
    let near = Event::Input(InputEvent {
        source: "vision".to_string(),
        content: InputContent::Visual(nexus::event::VisualSignal::PerceptUpdate {
            hash: 11,
            distance: 2,
        }),
    });
    let far = Event::Input(InputEvent {
        source: "vision".to_string(),
        content: InputContent::Visual(nexus::event::VisualSignal::PerceptUpdate {
            hash: 12,
            distance: 10,
        }),
    });
    r.tick_step(vec![near]);
    assert_eq!(r.state.visual.stability_score, 1000, "A close percept boosts stability");
    r.tick_step(vec![far]);
    // The clock first decays 1000 to 900; the far percept then costs a full
    // 0.3, clamped at zero.
    assert_eq!(r.state.visual.stability_score, 0, "A context shift costs stability");
    assert_eq!(r.state.visual.hash, 12);
}

#[test]
fn test_clarification_requests_speech_out_of_process() {
    let mut r = reactor();
    // A hedged question forms an unstable intent; the kernel asks for
    // clarification through the speech generator, never by spawning audio
    // around the crystallization verdict.
    let out = r.tick_step(vec![provisional("maybe what?", 4)]);
    assert!(out.effects.iter().any(|e| matches!(
        e,
        SideEffect::RequestSpeech { intent: nexus::speech::SpeechIntent::Clarification(_), .. }
    )));
    assert_eq!(spawn_count(&out.effects), 0, "Dialogue acts do not spawn audio directly");
}

#[test]
fn test_audible_plan_intents_are_gated() {
    // Under a denying verdict, even a planner-proposed clarification stays
    // silent; under an allowing one it is scheduled and spoken.
    let mut r = reactor();
    r.state.latents.slots.push(LatentSlot {
        values: vec![10000],
        confidence: 1000,
        created_at: Tick { frame: 0 },
        modality: Modality::Audio,
        decay_rate: 0,
    });
    let ask = |v: u64| {
        Event::PlanProposed(
            PlanningEpoch { tick: Tick { frame: 0 }, state_version: v },
            Intent::AskClarification { context: "weather".to_string() },
        )
    };
    let out = r.tick_step(vec![ask(0)]);
    assert_eq!(out.gate_decision, CrystallizationDecision::Deny);
    assert_eq!(spawn_count(&out.effects), 0);
    assert!(r.state.active_outputs.is_empty());

    let mut r = reactor();
    let out = r.tick_step(vec![ask(0)]);
    assert!(matches!(
        out.gate_decision,
        CrystallizationDecision::AllowHard | CrystallizationDecision::AllowPartial
    ));
    assert_eq!(spawn_count(&out.effects), 1);
    assert_eq!(r.state.active_outputs.len(), 1);
    assert_eq!(r.state.active_outputs[0].parent_id.as_deref(), Some("root_task"));
}
