//! What the components of the page decide before they render: which
//! controls are enabled, and which icon and style each one gets.

use vstd::prelude::*;
use crate::models::Todo;

verus! {

/// Icon of a delete button that can be clicked.
pub const DELETE_ICON: &'static str = "assets/icons/delete.svg";

/// Icon of a delete button that cannot be clicked.
pub const DELETE_DISABLED_ICON: &'static str = "assets/icons/delete_disabled.svg";

/// Icon of an upload button that can be clicked.
pub const UPLOAD_ICON: &'static str = "assets/icons/upload.svg";

/// Icon of an upload button that cannot be clicked.
pub const UPLOAD_DISABLED_ICON: &'static str = "assets/icons/upload_disabled.svg";

/// Icon of a checked check box.
pub const CHECKED_ICON: &'static str = "assets/icons/check_box.svg";

/// Icon of an unchecked check box.
pub const UNCHECKED_ICON: &'static str = "assets/icons/check_box_outline_blank.svg";

/// Style of the input of a title.
pub const TITLE_INPUT_CLASS: &'static str =
    "text-lg   + text-neutral-800 + resize-none border-none w-full h-full outline-none bg-inherit";

/// Style of an input that cannot be edited.
pub const DISABLED_INPUT_CLASS: &'static str =
    "text-base + text-neutral-400 + resize-none border-none w-full h-full outline-none bg-inherit";

/// Style of an input that can be edited.
pub const ENABLED_INPUT_CLASS: &'static str =
    "text-base + text-neutral-800 + resize-none border-none w-full h-full outline-none bg-inherit";

/// Style of the frame of a button that can be clicked.
pub const CLICKABLE_CLASS: &'static str = "cursor-pointer";

/// Style of the link of a button that cannot be clicked.
pub const UNCLICKABLE_CLASS: &'static str = "pointer-events-none";

/// Whether the check box of a slot can be clicked: only where checking is
/// on and the slot has content.
pub fn todo_is_checkable(checkable: bool, todo: &Todo) -> (enabled: bool)
    ensures
        enabled == (checkable && todo@.content.len() > 0),
{
    checkable && !todo.content.as_str().is_empty()
}

/// Whether the text of a slot can be edited: only while it is not
/// completed.
pub fn todo_is_editable(todo: &Todo) -> (enabled: bool)
    ensures
        enabled == !todo@.completed,
{
    !todo.completed
}

/// The icon of a delete button.
pub fn delete_icon(enabled: bool) -> (icon: &'static str)
    ensures
        icon@ == if enabled {
            DELETE_ICON@
        } else {
            DELETE_DISABLED_ICON@
        },
{
    if enabled {
        DELETE_ICON
    } else {
        DELETE_DISABLED_ICON
    }
}

/// The icon of an upload button.
pub fn upload_icon(enabled: bool) -> (icon: &'static str)
    ensures
        icon@ == if enabled {
            UPLOAD_ICON@
        } else {
            UPLOAD_DISABLED_ICON@
        },
{
    if enabled {
        UPLOAD_ICON
    } else {
        UPLOAD_DISABLED_ICON
    }
}

/// The icon of a check box.
pub fn check_box_icon(checked: bool) -> (icon: &'static str)
    ensures
        icon@ == if checked {
            CHECKED_ICON@
        } else {
            UNCHECKED_ICON@
        },
{
    if checked {
        CHECKED_ICON
    } else {
        UNCHECKED_ICON
    }
}

/// The style of the frame of a button: marked as clickable if it has a
/// handler.
pub fn button_frame_class(has_handler: bool) -> (class: Option<&'static str>)
    ensures
        match class {
            Some(c) => has_handler && c@ == CLICKABLE_CLASS@,
            None => !has_handler,
        },
{
    if has_handler {
        Some(CLICKABLE_CLASS)
    } else {
        None
    }
}

/// The style of the link of a button: shut to the pointer if it has no
/// handler.
pub fn button_link_class(has_handler: bool) -> (class: Option<&'static str>)
    ensures
        match class {
            Some(c) => !has_handler && c@ == UNCLICKABLE_CLASS@,
            None => has_handler,
        },
{
    if has_handler {
        None
    } else {
        Some(UNCLICKABLE_CLASS)
    }
}

/// Whether a text input is disabled: when it has neither a handler for
/// changes nor one for input.
pub fn text_input_is_disabled(has_on_change: bool, has_on_input: bool) -> (disabled: bool)
    ensures
        disabled == (!has_on_change && !has_on_input),
{
    !has_on_change && !has_on_input
}

/// The style of a text input: a title has its own, whether disabled or not;
/// other inputs are greyed when disabled.
pub fn text_input_class(is_title: bool, disabled: bool) -> (class: &'static str)
    ensures
        class@ == if is_title {
            TITLE_INPUT_CLASS@
        } else if disabled {
            DISABLED_INPUT_CLASS@
        } else {
            ENABLED_INPUT_CLASS@
        },
{
    if is_title {
        TITLE_INPUT_CLASS
    } else if disabled {
        DISABLED_INPUT_CLASS
    } else {
        ENABLED_INPUT_CLASS
    }
}

} // verus!
