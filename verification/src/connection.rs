//! What a connection announces when it comes and when it goes.
use crate::chat::models::{ChatUser, ChatUserView};
use vstd::prelude::*;

verus! {

/// A connection has come up for `user`. Its outbound channel stays with
/// whoever runs the state machines, under the user's identifier.
#[derive(Debug)]
pub struct Connect {
    pub user: ChatUser,
}

impl DeepView for Connect {
    type V = ChatUserView;

    open spec fn deep_view(&self) -> ChatUserView {
        self.user.deep_view()
    }
}

impl Clone for Connect {
    fn clone(&self) -> (copy: Self)
        ensures
            copy.deep_view() == self.deep_view(),
    {
        Connect { user: self.user.clone() }
    }
}

/// The connection of a session is gone.
#[derive(Debug)]
pub struct Disconnect {
    /// The session to disconnect.
    pub session_id: String,
}

impl DeepView for Disconnect {
    type V = Seq<char>;

    open spec fn deep_view(&self) -> Seq<char> {
        self.session_id@
    }
}

} // verus!
