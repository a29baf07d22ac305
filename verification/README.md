# meshchat

The conversations of a chat over a mesh radio: the messages with a channel or a node, in the order
of their time, and what the user does with them. The library is written in Verus, and its
contracts are proved.

- `src/conversation.rs`: a conversation, and what happens to it
- `src/history.rs`: the messages of a conversation, in a `ringmap::RingMap`
- `src/message.rs`: messages, and the emojis in reply to them
- `src/calendar.rs`: dates, and the text that announces a day
- `src/channel_view.rs`: what the screen shows of a conversation
- `src/laws.rs`: what holds of every conversation
- `src/conversation_id.rs`, `src/timestamp.rs`, `src/config.rs`, `src/device.rs`,
  `src/emoji_picker.rs`: identifiers, times, settings, requests and the emoji picker
- `app/`: the front end, which draws the view with iced and performs the actions

What is not proved is marked `external_body`: the calls to `ringmap` and `chrono`, each with a
comment that says what is believed of it.
