use vramancer::app::{cli_model, rank_by_scores, rank_models, App, Key, KeyAction, KeyPress};
use vramancer::heuristics::{parse_model_string, Billions, Model, ModelSource, ParamCount};
use vramancer::system::{fallback_gpu, SystemInfo};

fn machine() -> SystemInfo {
    SystemInfo {
        cpu_name: "CPU".to_string(),
        cpu_cores: 4,
        ram_total_bytes: 16,
        ram_available_bytes: 8,
        gpu: fallback_gpu(),
    }
}

fn models(names: &[&str]) -> Vec<Model> {
    names.iter().map(|n| parse_model_string(n, ModelSource::Ollama)).collect()
}

fn press(app: &mut App, code: Key) -> KeyAction {
    app.handle_key(KeyPress { code, ctrl: false })
}

fn type_text(app: &mut App, text: &str) {
    for c in text.chars() {
        press(app, Key::Char(c));
    }
}

fn names(v: &[Model]) -> Vec<String> {
    v.iter().map(|m| m.name.clone()).collect()
}

#[test]
fn new_selects_first() {
    let app = App::new(machine(), models(&["llama3:8b", "mistral:latest"]));
    assert_eq!(app.selected_index, 0);
    assert_eq!(app.context_length, 4096);
    assert_eq!(app.batch_size, 1);
    assert_eq!(app.quant_override, "Original");
    let req = app.estimate_request.as_ref().unwrap();
    assert_eq!(req.model.name, "llama3:8b");
    assert_eq!(req.context_length, 4096);
    let empty = App::new(machine(), vec![]);
    assert!(empty.estimate_request.is_none());
}

#[test]
fn navigation_stays_in_range() {
    let mut app = App::new(machine(), models(&["a", "b", "c"]));
    press(&mut app, Key::Down);
    press(&mut app, Key::Char('j'));
    press(&mut app, Key::Down);
    assert_eq!(app.selected_index, 2);
    assert_eq!(app.estimate_request.as_ref().unwrap().model.name, "c");
    press(&mut app, Key::Up);
    assert_eq!(app.selected_index, 1);
    press(&mut app, Key::Char('k'));
    press(&mut app, Key::Char('k'));
    assert_eq!(app.selected_index, 0);
    let mut empty = App::new(machine(), vec![]);
    press(&mut empty, Key::Down);
    assert_eq!(empty.selected_index, 0);
}

#[test]
fn context_keys() {
    let mut app = App::new(machine(), models(&["a"]));
    let mut seen = vec![];
    for _ in 0..4 {
        press(&mut app, Key::Tab);
        seen.push(app.context_length);
    }
    assert_eq!(seen, vec![8192, 32768, 2048, 4096]);
    press(&mut app, Key::Char('+'));
    assert_eq!(app.context_length, 5120);
    assert_eq!(app.estimate_request.as_ref().unwrap().context_length, 5120);
    for _ in 0..10 {
        press(&mut app, Key::Char('-'));
    }
    assert_eq!(app.context_length, 512);
    app.context_length = 1000;
    press(&mut app, Key::Tab);
    assert_eq!(app.context_length, 4096);
}

#[test]
fn quit_and_export() {
    let mut app = App::new(machine(), models(&["a"]));
    assert_eq!(press(&mut app, Key::Char('q')), KeyAction::Quit);
    assert_eq!(press(&mut app, Key::Char('e')), KeyAction::Export);
    assert_eq!(app.handle_key(KeyPress { code: Key::Char('c'), ctrl: true }), KeyAction::Quit);
    assert_eq!(press(&mut app, Key::Char('c')), KeyAction::Continue);
}

#[test]
fn search_ranks_and_restores() {
    let mut app = App::new(machine(), models(&["mistral:latest", "llama3:8b", "llama2:13b", "gemma:2b"]));
    press(&mut app, Key::Char('/'));
    assert!(app.is_searching);
    type_text(&mut app, "llama");
    assert_eq!(app.search_query, "llama");
    let shown = names(&app.filtered_models);
    assert_eq!(shown.len(), 2);
    assert!(shown.contains(&"llama3:8b".to_string()));
    assert!(shown.contains(&"llama2:13b".to_string()));
    assert_eq!(app.selected_index, 0);
    for _ in 0..5 {
        press(&mut app, Key::Backspace);
    }
    assert_eq!(app.search_query, "");
    assert_eq!(names(&app.filtered_models), names(&app.models));
    press(&mut app, Key::Esc);
    assert!(!app.is_searching);
}

#[test]
fn escape_clears_search() {
    let mut app = App::new(machine(), models(&["mistral:latest", "llama3:8b", "llama2:13b", "gemma:2b"]));
    press(&mut app, Key::Char('/'));
    type_text(&mut app, "llama");
    assert_eq!(app.filtered_models.len(), 2);
    assert_ne!(app.estimate_request.as_ref().unwrap().model.name, "mistral:latest");
    assert_eq!(press(&mut app, Key::Esc), KeyAction::Continue);
    assert!(!app.is_searching);
    assert_eq!(app.search_query, "");
    assert_eq!(names(&app.filtered_models), names(&app.models));
    assert_eq!(app.selected_index, 0);
    assert_eq!(app.estimate_request.as_ref().unwrap().model.name, "mistral:latest");
}

#[test]
fn ranking_by_given_scores() {
    let ms = models(&["a", "b", "c", "d", "e"]);
    let ranked = rank_by_scores(&ms, &vec![Some(5), None, Some(9), Some(5), Some(-1)]);
    assert_eq!(names(&ranked), vec!["c", "a", "d", "e"]);
    let ranked = rank_by_scores(&ms, &vec![None, None, None, None, None]);
    assert!(ranked.is_empty());
    let ranked = rank_by_scores(&ms, &vec![Some(0), Some(0), Some(0), Some(0), Some(1)]);
    assert_eq!(names(&ranked), vec!["e", "a", "b", "c", "d"]);
}

#[test]
fn ranking_orders_by_score() {
    let ms = models(&["zzz", "abc", "a_b_c", "abcd"]);
    let ranked = rank_models(&ms, "abc");
    let shown = names(&ranked);
    assert!(!shown.contains(&"zzz".to_string()));
    assert_eq!(shown.len(), 3);
    let matcher = fuzzy_matcher::skim::SkimMatcherV2::default();
    let scores: Vec<i64> = shown
        .iter()
        .map(|n| fuzzy_matcher::FuzzyMatcher::fuzzy_match(&matcher, n, "abc").unwrap())
        .collect();
    for w in scores.windows(2) {
        assert!(w[0] >= w[1]);
    }
}

#[test]
fn submit_input_sources() {
    let mut app = App::new(machine(), models(&["llama3:8b"]));
    press(&mut app, Key::Char('i'));
    assert!(app.show_input);
    type_text(&mut app, "  https://ollama.com/library/deepseek-r1?tab=tags ");
    press(&mut app, Key::Enter);
    assert!(!app.show_input);
    assert_eq!(app.models[0].name, "[O] deepseek-r1");
    assert_eq!(app.models[0].source, ModelSource::Ollama);
    assert_eq!(app.models[0].family, "deepseek");
    assert_eq!(app.filtered_models.len(), 2);
    assert_eq!(app.selected_index, 0);

    press(&mut app, Key::Char('i'));
    type_text(&mut app, "https://huggingface.co/TheBloke/Llama-2-7B-Chat-GGUF/tree/main");
    press(&mut app, Key::Enter);
    assert_eq!(app.models[0].name, "[HF] TheBloke/Llama-2-7B-Chat-GGUF");
    assert_eq!(app.models[0].source, ModelSource::HuggingFace);
    assert_eq!(app.models[0].total_params, ParamCount::Exact(Billions { units: 7, scale: 0 }));

    press(&mut app, Key::Char('i'));
    type_text(&mut app, "Qwen/Qwen2.5-14B");
    press(&mut app, Key::Enter);
    assert_eq!(app.models[0].name, "[HF] Qwen/Qwen2.5-14B");
    assert_eq!(app.models[0].family, "qwen");

    press(&mut app, Key::Char('i'));
    type_text(&mut app, "phi3:mini");
    press(&mut app, Key::Backspace);
    press(&mut app, Key::Char('i'));
    press(&mut app, Key::Enter);
    assert_eq!(app.models[0].name, "[M] phi3:mini");
    assert_eq!(app.models[0].source, ModelSource::Manual);
    assert_eq!(app.models.len(), 5);

    press(&mut app, Key::Char('i'));
    type_text(&mut app, "   ");
    press(&mut app, Key::Enter);
    assert!(!app.show_input);
    assert_eq!(app.models.len(), 5);
}

#[test]
fn quant_override_applies() {
    let mut app = App::new(machine(), models(&["llama3:8b"]));
    app.quant_override = "q4_0".to_string();
    app.recalculate();
    assert_eq!(app.estimate_request.as_ref().unwrap().model.quant, "q4_0");
    assert_eq!(app.filtered_models[0].quant, "f16");
}

#[test]
fn command_line_model() {
    let m = cli_model(None, None);
    assert_eq!(m.name, "llama3:8b");
    assert_eq!(m.source, ModelSource::Manual);
    let m = cli_model(Some("mistral:7b".to_string()), Some("q8_0".to_string()));
    assert_eq!(m.family, "mistral");
    assert_eq!(m.quant, "q8_0");
}
