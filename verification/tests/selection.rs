use leyline::clipboard::{TransferError, TransferTarget};
use leyline::keys::{KeyInput, KeyState, LogicalKey, ModifierMask};
use leyline::selection::controller::{
    ConfirmationOutcome, InteractionMode, OfferState, PasteCancellation, PasteTransition,
    SelectionController,
};
use leyline::tab::SessionId;

fn owner(value: u64) -> SessionId {
    SessionId { value }
}

#[test]
fn sources_are_independent_and_stale_cancellation_is_safe() {
    let mut controller = SelectionController::default();
    let clipboard = controller
        .prepare_publish(TransferTarget::Clipboard, "clip".into())
        .unwrap();
    controller.publish_submitted(TransferTarget::Clipboard, clipboard.source);
    let primary = controller
        .prepare_publish(TransferTarget::Primary, "primary".into())
        .unwrap();
    controller.publish_submitted(TransferTarget::Primary, primary.source);
    let replacement = controller
        .prepare_publish(TransferTarget::Clipboard, "new".into())
        .unwrap();
    assert_eq!(replacement.replaced, Some(clipboard.source));
    controller.publish_submitted(TransferTarget::Clipboard, replacement.source);
    controller.source_cancelled(TransferTarget::Clipboard, clipboard.source);
    let snapshot = controller.debug_snapshot();
    assert_eq!(snapshot.clipboard_source, Some(replacement.source));
    assert_eq!(snapshot.primary_source, Some(primary.source));
}

#[test]
fn offer_change_only_cancels_matching_target() {
    let mut controller = SelectionController::default();
    let _ = controller.offer_changed(TransferTarget::Clipboard, OfferState::TextAvailable);
    let request = controller
        .begin_request(TransferTarget::Clipboard, owner(1))
        .unwrap();
    assert_eq!(
        controller
            .offer_changed(TransferTarget::Primary, OfferState::Empty)
            .request,
        None
    );
    assert_eq!(controller.debug_snapshot().request, Some(request.request));
    assert_eq!(
        controller
            .offer_changed(TransferTarget::Clipboard, OfferState::Empty)
            .request,
        Some(request.request)
    );
}

#[test]
fn unrelated_offer_change_preserves_confirmation_and_ime_state() {
    let mut controller = SelectionController::default();
    let _ = controller.offer_changed(TransferTarget::Clipboard, OfferState::TextAvailable);
    let request = controller
        .begin_request(TransferTarget::Clipboard, owner(1))
        .unwrap()
        .request;
    assert_eq!(
        controller.transfer_completed(
            request,
            TransferTarget::Clipboard,
            Ok("one\ntwo".into()),
            true,
            owner(1)
        ),
        PasteTransition::Confirming
    );
    controller.set_modal_ime_suspended(true);
    assert_eq!(
        controller.offer_changed(TransferTarget::Primary, OfferState::Empty),
        PasteCancellation::default()
    );
    assert!(controller.modal_ime_suspended());
    assert!(matches!(
        controller.interaction_mode(),
        InteractionMode::ConfirmPaste { .. }
    ));
    let cancellation = controller.offer_changed(TransferTarget::Clipboard, OfferState::Empty);
    assert!(cancellation.resume_ime);
    assert!(cancellation.overlay_changed);
    assert_eq!(cancellation.request, None);
}

#[test]
fn unavailable_clears_only_its_current_source() {
    let mut controller = SelectionController::default();
    let clipboard = controller
        .prepare_publish(TransferTarget::Clipboard, "clip".into())
        .unwrap();
    controller.publish_submitted(TransferTarget::Clipboard, clipboard.source);
    let primary = controller
        .prepare_publish(TransferTarget::Primary, "primary".into())
        .unwrap();
    controller.publish_submitted(TransferTarget::Primary, primary.source);
    let _ = controller.offer_changed(TransferTarget::Clipboard, OfferState::Unavailable);
    assert_eq!(controller.debug_snapshot().clipboard_source, None);
    assert_eq!(
        controller.debug_snapshot().primary_source,
        Some(primary.source)
    );
    assert!(
        controller
            .source_bytes(TransferTarget::Clipboard, clipboard.source)
            .is_none()
    );
}

#[test]
fn empty_transfer_is_a_noop() {
    let mut controller = SelectionController::default();
    let _ = controller.offer_changed(TransferTarget::Clipboard, OfferState::TextAvailable);
    let request = controller
        .begin_request(TransferTarget::Clipboard, owner(1))
        .unwrap()
        .request;
    assert_eq!(
        controller.transfer_completed(
            request,
            TransferTarget::Clipboard,
            Ok(String::new()),
            true,
            owner(1)
        ),
        PasteTransition::Noop
    );
    assert_eq!(controller.debug_snapshot().request, None);
}

#[test]
fn replacement_owner_and_generation_make_completions_stale() {
    let mut controller = SelectionController::default();
    let _ = controller.offer_changed(TransferTarget::Primary, OfferState::TextAvailable);
    let first = controller
        .begin_request(TransferTarget::Primary, owner(1))
        .unwrap();
    let second = controller
        .begin_request(TransferTarget::Primary, owner(1))
        .unwrap();
    assert_eq!(second.cancel.request, Some(first.request));
    assert_eq!(
        controller.transfer_completed(
            first.request,
            TransferTarget::Primary,
            Ok("stale".into()),
            true,
            owner(1)
        ),
        PasteTransition::IgnoreStale
    );
    assert_eq!(
        controller.transfer_completed(
            second.request,
            TransferTarget::Primary,
            Ok("fresh".into()),
            true,
            owner(2)
        ),
        PasteTransition::IgnoreStale
    );
    let _ = controller.offer_changed(TransferTarget::Primary, OfferState::TextAvailable);
    assert_eq!(
        controller.transfer_completed(
            second.request,
            TransferTarget::Primary,
            Ok("old offer".into()),
            true,
            owner(1)
        ),
        PasteTransition::IgnoreStale
    );
}

#[test]
fn risky_paste_is_bound_to_owner() {
    let mut controller = SelectionController::default();
    let _ = controller.offer_changed(TransferTarget::Primary, OfferState::TextAvailable);
    let request = controller
        .begin_request(TransferTarget::Primary, owner(1))
        .unwrap()
        .request;
    assert_eq!(
        controller.transfer_completed(
            request,
            TransferTarget::Primary,
            Ok("one\ntwo".into()),
            true,
            owner(1)
        ),
        PasteTransition::Confirming
    );
    let mut key = KeyInput {
        state: KeyState::Pressed,
        logical_key: LogicalKey::Enter,
        shortcut_modifiers: ModifierMask {
            shift: false,
            control: false,
            alt: false,
            super_key: false,
        },
    };
    assert_eq!(
        controller.confirmation_input(&key, owner(2)),
        ConfirmationOutcome::Closed
    );

    let request = controller
        .begin_request(TransferTarget::Primary, owner(1))
        .unwrap()
        .request;
    assert_eq!(
        controller.transfer_completed(
            request,
            TransferTarget::Primary,
            Ok("one\ntwo".into()),
            true,
            owner(1)
        ),
        PasteTransition::Confirming
    );
    key.state = KeyState::Released;
    assert_eq!(
        controller.confirmation_input(&key, owner(1)),
        ConfirmationOutcome::Consumed
    );
    key.state = KeyState::Pressed;
    assert_eq!(
        controller.confirmation_input(&key, owner(1)),
        ConfirmationOutcome::Paste {
            owner: owner(1),
            text: "one\ntwo".into()
        }
    );
}

#[test]
fn transfer_and_queue_failures_leave_the_controller_idle() {
    let mut controller = SelectionController::default();
    let _ = controller.offer_changed(TransferTarget::Primary, OfferState::TextAvailable);
    let request = controller
        .begin_request(TransferTarget::Primary, owner(1))
        .unwrap()
        .request;
    assert_eq!(
        controller.transfer_completed(
            request,
            TransferTarget::Primary,
            Err(TransferError::Timeout),
            true,
            owner(1)
        ),
        PasteTransition::Failed(TransferError::Timeout)
    );
    assert_eq!(controller.interaction_mode(), InteractionMode::Normal);

    let request = controller
        .begin_request(TransferTarget::Primary, owner(1))
        .unwrap()
        .request;
    controller.request_failed(request);
    assert_eq!(controller.debug_snapshot().request, None);
}

#[test]
fn an_offered_text_replaces_the_last_one_and_no_other() {
    let mut controller = SelectionController::default();
    let other = controller.prepare_publish(TransferTarget::Primary, "other".into()).unwrap().source;
    controller.publish_submitted(TransferTarget::Primary, other);
    let first = controller.prepare_publish(TransferTarget::Clipboard, "one".into()).unwrap().source;
    controller.publish_submitted(TransferTarget::Clipboard, first);
    let second = controller.prepare_publish(TransferTarget::Clipboard, "two".into()).unwrap().source;
    controller.publish_submitted(TransferTarget::Clipboard, second);
    assert_eq!(controller.source_bytes(TransferTarget::Clipboard, first), None);
    assert_eq!(controller.source_bytes(TransferTarget::Clipboard, second).unwrap(), b"two");
    assert_eq!(controller.source_bytes(TransferTarget::Primary, other).unwrap(), b"other");

    let settled = controller.debug_snapshot();
    assert_eq!(settled.clipboard_source, Some(second));
    controller.publish_submitted(TransferTarget::Clipboard, second);
    controller.publish_submitted(TransferTarget::Clipboard, first);
    controller.publish_submitted(TransferTarget::Primary, second);
    assert_eq!(controller.debug_snapshot(), settled);
}

#[test]
fn a_text_that_could_not_be_offered_leaves_no_trace() {
    let mut controller = SelectionController::default();
    let kept = controller.prepare_publish(TransferTarget::Clipboard, "kept".into()).unwrap().source;
    controller.publish_submitted(TransferTarget::Clipboard, kept);
    let before = controller.debug_snapshot();
    let failed = controller.prepare_publish(TransferTarget::Clipboard, "lost".into()).unwrap().source;
    assert_ne!(controller.debug_snapshot(), before);
    controller.publish_failed(failed);
    assert_eq!(controller.debug_snapshot(), before);
    assert_eq!(controller.source_bytes(TransferTarget::Clipboard, failed), None);
    controller.publish_failed(failed);
    assert_eq!(controller.debug_snapshot(), before);
}
