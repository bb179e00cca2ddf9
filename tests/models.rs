use seaplane::models::{Api, Architecture, Provider, Region};

fn json_text(s: &str) -> String {
    serde_json::from_str::<String>(s).unwrap()
}

#[test]
fn architecture_case_insensitive() {
    let arch: Architecture = json_text("\"amd64\"").parse().unwrap();
    assert_eq!(arch, Architecture::AMD64);
    let arch: Architecture = json_text("\"Amd64\"").parse().unwrap();
    assert_eq!(arch, Architecture::AMD64);
    let arch: Architecture = json_text("\"AMD64\"").parse().unwrap();
    assert_eq!(arch, Architecture::AMD64);
}

#[test]
fn provider_case_insensitive() {
    let provider: Provider = json_text("\"aws\"").parse().unwrap();
    assert_eq!(provider, Provider::AWS);
    let provider: Provider = json_text("\"Aws\"").parse().unwrap();
    assert_eq!(provider, Provider::AWS);
    let provider: Provider = json_text("\"AWS\"").parse().unwrap();
    assert_eq!(provider, Provider::AWS);
}

#[test]
fn region_case_insensitive() {
    let region: Region = json_text("\"xn\"").parse().unwrap();
    assert_eq!(region, Region::XN);
    let region: Region = json_text("\"Xn\"").parse().unwrap();
    assert_eq!(region, Region::XN);
    let region: Region = json_text("\"XN\"").parse().unwrap();
    assert_eq!(region, Region::XN);
}

#[test]
fn names_round_trip() {
    assert_eq!(Architecture::from_name(Architecture::ARM64.as_str()), Some(Architecture::ARM64));
    assert_eq!(Provider::from_name("digitalocean"), Some(Provider::DigitalOcean));
    assert_eq!(Provider::DigitalOcean.as_str(), "DigitalOcean");
    assert_eq!(Region::from_name("xq"), Some(Region::XQ));
    assert_eq!(Region::from_name("x"), None);
    assert!("amd".parse::<Architecture>().is_err());
}

#[test]
fn api_names_are_exact() {
    assert_eq!(Api::from_name("config"), Some(Api::Config));
    assert_eq!(Api::from_name("locks"), Some(Api::Locks));
    assert_eq!(Api::from_name("Config"), None);
    assert_eq!(Api::Config.as_str(), "config");
}
