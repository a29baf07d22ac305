//! The state of the emoji picker.
use vstd::prelude::*;

verus! {

/// What the user does in the emoji picker.
#[derive(Debug, Clone)]
pub enum PickerMessage<M> {
    /// Shows another group of emojis.
    SelectGroup(usize),
    /// Leaves the picker, with a message for its owner.
    Forward(M),
}

/// The emoji picker: its size in pixels, where one is set, and the group of emojis it shows.
#[derive(Debug, Clone, Copy, PartialEq, Eq, Structural)]
pub struct EmojiPicker {
    pub height: Option<u32>,
    pub width: Option<u32>,
    pub group: usize,
}

impl Default for EmojiPicker {
    fn default() -> (picker: EmojiPicker)
        ensures
            picker == (EmojiPicker { height: None, width: None, group: 0 }),
    {
        EmojiPicker { height: None, width: None, group: 0 }
    }
}

impl EmojiPicker {
    pub fn new() -> (picker: EmojiPicker)
        ensures
            picker == (EmojiPicker { height: None, width: None, group: 0 }),
    {
        EmojiPicker::default()
    }

    /// Sets the height.
    pub fn height(self, height: u32) -> (picker: EmojiPicker)
        ensures
            picker == (EmojiPicker { height: Some(height), ..self }),
    {
        EmojiPicker { height: Some(height), ..self }
    }

    /// Sets the width.
    pub fn width(self, width: u32) -> (picker: EmojiPicker)
        ensures
            picker == (EmojiPicker { width: Some(width), ..self }),
    {
        EmojiPicker { width: Some(width), ..self }
    }

    /// The picker after a message.
    pub open spec fn after<M>(self, message: PickerMessage<M>) -> EmojiPicker {
        match message {
            PickerMessage::SelectGroup(group) => EmojiPicker { group, ..self },
            PickerMessage::Forward(_) => self,
        }
    }

    /// Takes a message in. Gives back the message that it carries for the owner of the picker.
    pub fn update<M>(&mut self, message: PickerMessage<M>) -> (forwarded: Option<M>)
        ensures
            *final(self) == old(self).after(message),
            match message {
                PickerMessage::SelectGroup(_) => forwarded is None,
                PickerMessage::Forward(inner) => forwarded == Some(inner),
            },
    {
        match message {
            PickerMessage::SelectGroup(group) => {
                self.group = group;
                None
            },
            PickerMessage::Forward(inner) => Some(inner),
        }
    }
}

} // verus!
