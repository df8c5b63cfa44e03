use polygone::models::extract_quantization;
use polygone::models::{ModelInfo, ModelRegistry};
use polygone::petals::{DeviceType, ModelCapabilities, ModelSource};

fn model(name: &str, source: ModelSource, devices: Vec<DeviceType>) -> ModelInfo {
    ModelInfo {
        name: name.to_string(),
        display_name: None,
        source,
        parameters: Some("7B".to_string()),
        quantization: Some("Q4_K_M".to_string()),
        context_window: Some(4096),
        supported_devices: devices,
        capabilities: ModelCapabilities::default(),
    }
}

#[test]
fn registry_starts_empty() {
    let r = ModelRegistry::new();
    assert!(!r.has_model("llama3"));
    assert!(r.get_model("llama3").is_none());
    assert!(r.list_models().is_empty());
}

#[test]
fn add_replaces_same_name() {
    let mut r = ModelRegistry::new();
    r.add(model("llama3", ModelSource::Ollama, vec![DeviceType::Cpu]));
    r.add(model("mistral", ModelSource::Vllm, vec![DeviceType::Cuda]));
    r.add(model("llama3", ModelSource::LocalGguf, vec![DeviceType::Metal]));
    assert_eq!(r.list_models().len(), 2);
    assert_eq!(r.get_model("llama3").unwrap().source, ModelSource::LocalGguf);
    assert!(r.has_model("mistral"));
}

#[test]
fn remove_returns_the_model() {
    let mut r = ModelRegistry::new();
    r.add(model("a", ModelSource::Ollama, vec![]));
    r.add(model("b", ModelSource::Ollama, vec![]));
    let got = r.remove("a").unwrap();
    assert_eq!(got.name, "a");
    assert!(r.remove("a").is_none());
    assert!(!r.has_model("a"));
    assert!(r.has_model("b"));
}

#[test]
fn filters_by_source_and_device() {
    let mut r = ModelRegistry::new();
    r.add(model("cpu-only", ModelSource::Ollama, vec![DeviceType::Cpu]));
    r.add(model("anywhere", ModelSource::HuggingFace, vec![DeviceType::Auto]));
    r.add(model("gpu", ModelSource::Ollama, vec![DeviceType::Cuda, DeviceType::Vulkan]));
    let ollama: Vec<String> = r.by_source(ModelSource::Ollama).into_iter().map(|m| m.name).collect();
    assert_eq!(ollama, vec!["cpu-only", "gpu"]);
    let cuda: Vec<String> = r.for_device(DeviceType::Cuda).into_iter().map(|m| m.name).collect();
    assert_eq!(cuda, vec!["anywhere", "gpu"]);
    assert!(r.get_model("anywhere").unwrap().supports_device(DeviceType::Metal));
    assert!(!r.get_model("cpu-only").unwrap().supports_device(DeviceType::Metal));
}

#[test]
fn update_replaces_everything() {
    let mut r = ModelRegistry::new();
    r.add(model("old", ModelSource::Ollama, vec![]));
    r.update(vec![
        model("x", ModelSource::Vllm, vec![]),
        model("y", ModelSource::Vllm, vec![]),
        model("x", ModelSource::Ollama, vec![]),
    ]);
    assert!(!r.has_model("old"));
    let names: Vec<String> = r.list_models().into_iter().map(|m| m.name).collect();
    assert_eq!(names, vec!["x", "y"]);
    assert_eq!(r.get_model("x").unwrap().source, ModelSource::Ollama);
}

#[test]
fn quantization_from_model_names() {
    assert_eq!(extract_quantization("llama3.1:7b-q4_k_m").as_deref(), Some("Q4_K_M"));
    assert_eq!(extract_quantization("Mistral-7B-Q8_0").as_deref(), Some("Q8_0"));
    assert_eq!(extract_quantization("phi3:mini"), None);
    assert_eq!(extract_quantization("qwen2:7b"), None);
    assert_eq!(extract_quantization("q"), None);
}
