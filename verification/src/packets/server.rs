//! Messages that the server sends.

pub mod clan_stream_message;
pub mod home_data_message;
pub mod login_failed_message;
pub mod login_ok_message;
pub mod my_alliance_message;

pub use clan_stream_message::ClanStreamMessage;
pub use home_data_message::HomeDataMessage;
pub use login_failed_message::LoginFailedMessage;
pub use login_ok_message::LoginOkMessage;
pub use my_alliance_message::MyAllianceMessage;
