use gxdl_rs::cli::{Cli, CliError, TransferMode};

fn base() -> Cli {
    Cli {
        boot: None,
        model: None,
        device: None,
        command: None,
        transfer_mode: TransferMode::S,
        yes: false,
        baud: 115_200,
        verbose: false,
        reset_dtr: false,
        reset_rts: false,
        loopback_test: false,
        list_loaders: false,
    }
}

#[test]
fn custom_boot_takes_no_cli_conflict_with_model() {
    let cli = Cli {
        device: Some("port".to_string()),
        boot: Some("a.boot".to_string()),
        model: Some("x".to_string()),
        ..base()
    };
    cli.validate(None).unwrap();
    assert_eq!(cli.boot, Some("a.boot".to_string()));
}

#[test]
fn nns_needs_device_but_not_loader() {
    let cli = Cli {
        device: Some("port".to_string()),
        transfer_mode: TransferMode::Nns,
        ..base()
    };
    cli.validate(None).unwrap();
}

#[test]
fn compare_needs_neither_device_nor_loader() {
    let cli = Cli {
        command: Some("compare a b".to_string()),
        ..base()
    };
    let command = cli.parsed_command().unwrap();
    cli.validate(command.as_ref()).unwrap();
}

#[test]
fn upload_without_loader_is_refused() {
    let cli = Cli {
        device: Some("port".to_string()),
        ..base()
    };
    let error = cli.validate(None).unwrap_err();
    assert_eq!(error, CliError::LoaderRequired);
    assert_eq!(
        error.message(),
        "transfer mode 's' requires -b/--boot or -m/--model"
    );
}

#[test]
fn device_is_required_for_device_work() {
    let error = base().validate(None).unwrap_err();
    assert_eq!(error, CliError::DeviceRequired);
    assert_eq!(error.message(), "this operation requires -d/--device");
}

#[test]
fn loopback_needs_a_device() {
    let cli = Cli {
        loopback_test: true,
        ..base()
    };
    let error = cli.validate(None).unwrap_err();
    assert_eq!(error, CliError::LoopbackNeedsDevice);
    assert_eq!(error.message(), "--loopback-test requires -d/--device");
}

#[test]
fn listing_loaders_needs_nothing() {
    let cli = Cli {
        list_loaders: true,
        loopback_test: true,
        ..base()
    };
    cli.validate(None).unwrap();
}

#[test]
fn bad_command_text_is_reported() {
    let cli = Cli {
        command: Some("wat".to_string()),
        ..base()
    };
    assert!(cli.parsed_command().is_err());
    assert_eq!(base().parsed_command().unwrap(), None);
}
