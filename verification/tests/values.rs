use dockify::errors::ApiError;
use dockify::lifecycle::ContainerInfo;
use dockify::lifecycle::default_image;
use dockify::lifecycle::default_shares;
use dockify::messages::ContainerName;
use dockify::messages::GenericResponse;
use dockify::messages::MReturn;

#[test]
fn request_defaults_match_the_plan() {
    assert_eq!(default_shares(), 512);
    assert_eq!(default_image(), "dorowu/ubuntu-desktop-lxde-vnc");
    let info = ContainerInfo {
        image: default_image(),
        memory: 1024,
        memory_swap: 0,
        cpu_cores: 1,
        cpu_shares: default_shares(),
    };
    assert_eq!(info.cpu_shares, 512);
}

#[test]
fn messages_carry_their_payloads() {
    let m = MReturn::new("hello".to_string());
    assert_eq!(m.message, "hello");
    let named = ContainerName { name: "box".to_string() };
    assert_eq!(named.name, "box");
    match (GenericResponse::Credits { credits: 7 }) {
        GenericResponse::Credits { credits } => assert_eq!(credits, 7),
        _ => unreachable!(),
    }
}

#[test]
fn error_labels_stay_generic() {
    assert_eq!(ApiError::InsufficientCredits.label(), "insufficient credits");
    assert_eq!(ApiError::NameNotFound.label(), "not found");
    assert_eq!(ApiError::Unauthorized.label(), "unauthorized");
}
