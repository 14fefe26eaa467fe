//! The notifier: it takes the queued commands one by one, in the order in
//! which they came, and has each notification sent once.
use crate::command::{Command, CommandView};
use vstd::prelude::*;

verus! {

/// What the notifier does with one command.
#[derive(Debug, PartialEq, Eq)]
pub enum Delivery {
    /// Send this text to the operator, once, and go on whether or not the
    /// sending succeeds.
    Send(String),
    /// Go on: the command is none of the notifier's.
    Skip,
    /// Stop.
    Stop,
}

/// What a `Delivery` holds.
pub enum DeliveryView {
    Send(Seq<char>),
    Skip,
    Stop,
}

impl View for Delivery {
    type V = DeliveryView;

    open spec fn view(&self) -> DeliveryView {
        match self {
            Delivery::Send(text) => DeliveryView::Send(text@),
            Delivery::Skip => DeliveryView::Skip,
            Delivery::Stop => DeliveryView::Stop,
        }
    }
}

/// What the notifier does with one command: a notification is sent,
/// `Terminate` stops the notifier, anything else is passed over.
pub open spec fn delivery_of(command: CommandView) -> DeliveryView {
    match command {
        CommandView::Notify(text) => DeliveryView::Send(text),
        CommandView::Terminate => DeliveryView::Stop,
        CommandView::Seen(_) => DeliveryView::Skip,
    }
}

/// The texts that the notifier sends when it is handed the commands in
/// their order: each notification that comes before the first `Terminate`,
/// once, and nothing that comes after it.
pub open spec fn sent_texts(queue: Seq<CommandView>) -> Seq<Seq<char>>
    decreases queue.len(),
{
    if queue.len() == 0 {
        Seq::empty()
    } else {
        match delivery_of(queue[0]) {
            DeliveryView::Send(text) => seq![text] + sent_texts(queue.drop_first()),
            DeliveryView::Skip => sent_texts(queue.drop_first()),
            DeliveryView::Stop => Seq::empty(),
        }
    }
}

/// Decides what to do with the command that has been taken from the queue.
pub fn deliver(command: Command) -> (d: Delivery)
    ensures
        d@ == delivery_of(command@),
{
    match command {
        Command::Notify(text) => Delivery::Send(text),
        Command::Terminate => Delivery::Stop,
        Command::Seen(_) => Delivery::Skip,
    }
}

/// Takes the commands of a queue in their order and collects the texts to
/// send, up to the first `Terminate`.
pub fn drain(queue: &Vec<Command>) -> (texts: Vec<String>)
    ensures
        texts@.map_values(|t: String| t@) == sent_texts(queue@.map_values(|c: Command| c@)),
{
    let ghost all = queue@.map_values(|c: Command| c@);
    let mut texts: Vec<String> = Vec::new();
    let mut i: usize = 0;
    proof {
        assert(all.skip(0) =~= all);
        assert(texts@.map_values(|t: String| t@) =~= Seq::<Seq<char>>::empty());
    }
    while i < queue.len()
        invariant
            0 <= i <= queue.len(),
            all == queue@.map_values(|c: Command| c@),
            sent_texts(all) == texts@.map_values(|t: String| t@) + sent_texts(all.skip(i as int)),
        decreases queue.len() - i,
    {
        let ghost sent = texts@.map_values(|t: String| t@);
        proof {
            assert(all.skip(i as int)[0] == queue@[i as int]@);
            assert(all.skip(i as int).drop_first() =~= all.skip(i as int + 1));
        }
        match deliver(queue[i].clone()) {
            Delivery::Send(text) => {
                texts.push(text);
                assert(texts@.map_values(|t: String| t@) =~= sent + seq![text@]);
                assert(sent + (seq![text@] + sent_texts(all.skip(i as int + 1))) =~= (sent
                    + seq![text@]) + sent_texts(all.skip(i as int + 1)));
            },
            Delivery::Skip => {},
            Delivery::Stop => {
                assert(sent + Seq::<Seq<char>>::empty() =~= sent);
                return texts;
            },
        }
        i += 1;
    }
    proof {
        assert(texts@.map_values(|t: String| t@) + Seq::<Seq<char>>::empty()
            =~= texts@.map_values(|t: String| t@));
    }
    texts
}

} // verus!
