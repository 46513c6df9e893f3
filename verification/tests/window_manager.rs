use nicotine::window_manager::{restack_supported, DisplayServer, WaylandCompositor};

#[test]
fn restack_unsupported_only_on_gnome_wayland() {
    // The single blocked case.
    assert!(!restack_supported(
        DisplayServer::Wayland,
        WaylandCompositor::Gnome
    ));
    // GNOME-on-Xorg keeps positioning — it's a real X server, so the
    // compositor value is GNOME but the server is X11 and restack works.
    assert!(restack_supported(
        DisplayServer::X11,
        WaylandCompositor::Gnome
    ));
    // Every other Wayland compositor supports positioning.
    for c in [
        WaylandCompositor::Kde,
        WaylandCompositor::Sway,
        WaylandCompositor::Hyprland,
        WaylandCompositor::Other,
    ] {
        assert!(
            restack_supported(DisplayServer::Wayland, c),
            "{c:?} should support restack"
        );
    }
}