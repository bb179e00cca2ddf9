use std::collections::HashMap;

use seaplane::cli::{
    CliError, MetadataCmd, MetadataListArgs, OutputFormat, SeaplaneFlightEdit, SeaplaneMetadata,
    SeaplaneMetadataDelete, SeaplaneMetadataList,
};
use seaplane::flights::{Flight, FlightOverlay, Flights, ResolutionError};
use seaplane::models::Architecture;
use seaplane::persist::{persist_plan, temp_path, FsOp};

fn args() -> MetadataListArgs {
    MetadataListArgs {
        base64: false,
        decode: false,
        decode_safe: false,
        no_decode: false,
        only_values: false,
        only_keys: false,
        no_header: false,
        human_readable: false,
        keys_width_limit: 0,
        values_width_limit: 0,
        from: None,
        dir: None,
        format: OutputFormat::Table,
    }
}

#[test]
fn list_decode_conflicts_with_json() {
    let a = MetadataListArgs { decode: true, format: OutputFormat::Json, ..args() };
    assert_eq!(
        SeaplaneMetadataList.update_ctx(&a).unwrap_err(),
        CliError::ConflictingArguments("--decode".to_string(), "--format json".to_string())
    );
}

#[test]
fn list_human_readable_means_safe_decoding() {
    let a = MetadataListArgs { human_readable: true, ..args() };
    assert!(SeaplaneMetadataList.update_ctx(&a).unwrap().decode_safe);
    let a = MetadataListArgs { human_readable: true, no_decode: true, ..args() };
    assert!(!SeaplaneMetadataList.update_ctx(&a).unwrap().decode_safe);
}

#[test]
fn list_arguments_plain_and_base64() {
    let a = MetadataListArgs { from: Some("foo".to_string()), dir: Some("a/".to_string()), ..args() };
    let ctx = SeaplaneMetadataList.update_ctx(&a).unwrap();
    assert_eq!(ctx.from.as_ref().unwrap().bytes, b"foo".to_vec());
    assert_eq!(ctx.directory.as_ref().unwrap().bytes, b"a/".to_vec());
    let a = MetadataListArgs { base64: true, from: Some("Zm9v".to_string()), ..args() };
    let ctx = SeaplaneMetadataList.update_ctx(&a).unwrap();
    assert_eq!(ctx.from.as_ref().unwrap().bytes, b"foo".to_vec());
    let a = MetadataListArgs { base64: true, dir: Some("Zm9v=".to_string()), ..args() };
    assert_eq!(
        SeaplaneMetadataList.update_ctx(&a).unwrap_err(),
        CliError::InvalidBase64("Zm9v=".to_string())
    );
}

#[test]
fn list_run_starts_scoped_query() {
    let a = MetadataListArgs { dir: Some("dir".to_string()), ..args() };
    let ctx = SeaplaneMetadataList.update_ctx(&a).unwrap();
    let q = SeaplaneMetadataList.run(&ctx, 100);
    let req = q.next_request().unwrap();
    assert_eq!(req.directory, Some("ZGly".to_string()));
    assert_eq!(req.from, None);
}

#[test]
fn metadata_subcommands() {
    assert_eq!(SeaplaneMetadata::next_subcmd("get"), Some(MetadataCmd::GetValue));
    assert_eq!(SeaplaneMetadata::next_subcmd("set"), Some(MetadataCmd::SetValue));
    assert_eq!(SeaplaneMetadata::next_subcmd("delete"), Some(MetadataCmd::Delete));
    assert_eq!(SeaplaneMetadata::next_subcmd("list"), Some(MetadataCmd::List));
    assert_eq!(SeaplaneMetadata::next_subcmd("ls"), None);
}

#[test]
fn delete_key_url() {
    assert_eq!(
        SeaplaneMetadataDelete::key_url(&"foo/bar\n".to_string(), false).unwrap(),
        "https://metadata.cplane.cloud/v1/config/base64:Zm9vL2Jhcgo"
    );
    assert_eq!(
        SeaplaneMetadataDelete::key_url(&"Zm9v".to_string(), true).unwrap(),
        "https://metadata.cplane.cloud/v1/config/base64:Zm9v"
    );
    assert_eq!(
        SeaplaneMetadataDelete::key_url(&"Zm9v=".to_string(), true).unwrap_err(),
        CliError::InvalidBase64("Zm9v=".to_string())
    );
}

#[test]
fn delete_report_suffix() {
    assert_eq!(SeaplaneMetadataDelete::item_suffix(0), "");
    assert_eq!(SeaplaneMetadataDelete::item_suffix(1), "");
    assert_eq!(SeaplaneMetadataDelete::item_suffix(2), "s");
}

#[test]
fn flight_edit_run() {
    let mut flights = Flights::from_flights(vec![Flight {
        id: "1".to_string(),
        name: "foo".to_string(),
        image: "a".to_string(),
        architecture: Architecture::AMD64,
        minimum: 1,
        maximum: Some(2),
    }])
    .unwrap();
    let overlay = FlightOverlay { architecture: Some(Architecture::ARM64), ..FlightOverlay::default() };
    assert_eq!(SeaplaneFlightEdit.run(&mut flights, "fo", false, &overlay), Ok(()));
    assert_eq!(flights.get(0).architecture, Architecture::ARM64);
    assert_eq!(flights.get(0).image, "a");
    assert_eq!(
        SeaplaneFlightEdit.run(&mut flights, "fo", true, &overlay),
        Err(ResolutionError::NotFound)
    );
}

fn apply(fs: &mut HashMap<String, Vec<u8>>, op: &FsOp) {
    match op {
        FsOp::Write { path, contents } => {
            fs.insert(path.clone(), contents.clone());
        }
        FsOp::Sync { .. } => {}
        FsOp::Rename { from, to } => {
            if let Some(c) = fs.remove(from) {
                fs.insert(to.clone(), c);
            }
        }
    }
}

#[test]
fn persist_crash_before_rename_keeps_old_file() {
    let dest = "/data/flights.json";
    let plan = persist_plan(dest, b"new document".to_vec());
    assert_eq!(plan.len(), 3);
    assert_eq!(temp_path(dest), "/data/flights.json.tmp");
    for crash_after in 0..plan.len() {
        let mut fs = HashMap::new();
        fs.insert(dest.to_string(), b"old document".to_vec());
        for op in &plan[..crash_after] {
            apply(&mut fs, op);
        }
        assert_eq!(fs[dest], b"old document".to_vec());
    }
    let mut fs = HashMap::new();
    fs.insert(dest.to_string(), b"old document".to_vec());
    for op in &plan {
        apply(&mut fs, op);
    }
    assert_eq!(fs[dest], b"new document".to_vec());
    assert!(!fs.contains_key("/data/flights.json.tmp"));
}
