use alloy_signer_local::PrivateKeySigner;
use game_core::channels::{
    BincodeHelper, ChannelError, GossipMessage, Receiver, Sender, SignableMessage, SignedMessage,
    SignedReceiver, SignedSender,
};
use tokio::sync::mpsc::error::TryRecvError;
use game_core::events::{GameEvent, GameEventMessage};
use game_core::primitives::Address;
use game_core::queue::Queue;
use game_core::signer::Keypair;

fn random_keypair() -> Keypair {
    let signer = PrivateKeySigner::random();
    Keypair::from_slice(signer.to_bytes().as_slice()).unwrap()
}

#[test]
fn test_signed_message() {
    let signer = random_keypair();
    let mut channel: Queue<SignedMessage<()>> = Queue::new();

    // Send message
    let message = SignedMessage::new((), signer.address());
    channel.send_signed(message, &signer).unwrap();

    // Receive message
    channel.receive_signed().unwrap();
}

/// The sending end of a tokio channel as a sender of signed messages.
struct TokioSender(tokio::sync::mpsc::Sender<SignedMessage<()>>);

impl Sender for TokioSender {
    type Message = SignedMessage<()>;

    fn send(&mut self, message: SignedMessage<()>) -> Result<(), ChannelError> {
        self.0.try_send(message).map_err(|_| ChannelError::Disconnected)
    }
}

/// The receiving end of a tokio channel as a receiver of signed messages.
struct TokioReceiver(tokio::sync::mpsc::Receiver<SignedMessage<()>>);

impl Receiver for TokioReceiver {
    type Message = SignedMessage<()>;

    fn try_receive(&mut self) -> Result<Option<SignedMessage<()>>, ChannelError> {
        match self.0.try_recv() {
            Ok(message) => Ok(Some(message)),
            Err(TryRecvError::Empty) => Ok(None),
            Err(TryRecvError::Disconnected) => Err(ChannelError::Disconnected),
        }
    }
}

#[test]
fn test_signed_message_tokio() {
    let signer = random_keypair();
    let (tx, rx) = tokio::sync::mpsc::channel(1);
    let (mut tx, mut rx) = (TokioSender(tx), TokioReceiver(rx));

    // Send message
    let message = SignedMessage::new((), signer.address());
    tx.send_signed(message, &signer).unwrap();

    // Receive message
    assert!(rx.receive_signed().unwrap().is_some());
    assert!(rx.receive_signed().unwrap().is_none());
    drop(tx);
    assert_eq!(rx.receive_signed().unwrap_err(), ChannelError::Disconnected);
}

#[test]
fn test_malicious_message() {
    let signer = random_keypair();
    let mut channel: Queue<SignedMessage<()>> = Queue::new();

    // Send message
    let message = SignedMessage::new((), Address::zero());
    channel.send_signed(message, &signer).unwrap();

    // Receive message
    assert!(channel.receive_signed().is_err());
}

#[test]
fn test_message_sync() {
    const DATA: &[u8] = b"FONKETH";
    let signer = random_keypair();
    let mut channel: Queue<SignedMessage<Vec<u8>>> = Queue::new();

    // Send message
    let message = SignedMessage::new(DATA.to_vec(), signer.address());
    channel.send_signed(message, &signer).unwrap();

    // Receive message
    let data = channel.receive_signed().unwrap();
    assert_eq!(data.unwrap().data, DATA);
}

#[test]
fn rejected_message_reports_the_signer() {
    let signer = random_keypair();
    let mut channel: Queue<SignedMessage<Vec<u8>>> = Queue::new();
    let message = SignedMessage::new(vec![1, 2, 3], Address::zero());
    channel.send_signed(message, &signer).unwrap();
    assert_eq!(channel.receive_signed().unwrap_err(), ChannelError::SignerNotApproved);
    // The message was taken out of the channel although it was not handed on.
    assert_eq!(channel.len(), 0);
}

#[test]
fn closed_queue_refuses_and_reports() {
    let signer = random_keypair();
    let mut channel: Queue<SignedMessage<Vec<u8>>> = Queue::new();
    assert!(channel.try_receive().unwrap().is_none());
    channel.close();
    let message = SignedMessage::new(vec![7], signer.address());
    assert_eq!(channel.send(message).unwrap_err(), ChannelError::Disconnected);
    assert_eq!(channel.receive_signed().unwrap_err(), ChannelError::Disconnected);
}

#[test]
fn gossip_bytes_are_checked_like_messages() {
    let signer = random_keypair();
    let event: GameEventMessage = GameEvent::ChatMessage("gm".to_string());
    let mut honest = SignedMessage::new(event.clone(), signer.address());
    honest.sign(&signer).unwrap();
    let mut forged = SignedMessage::new(event, Address::zero());
    forged.sign(&signer).unwrap();

    let mut channel: Queue<GossipMessage> = Queue::new();
    channel.send(GossipMessage { data: BincodeHelper::encode(&honest).unwrap() }).unwrap();
    channel.send(GossipMessage { data: BincodeHelper::encode(&forged).unwrap() }).unwrap();
    channel.send(GossipMessage { data: vec![0xff] }).unwrap();

    let first = channel.receive_signed().unwrap().unwrap();
    assert_eq!(BincodeHelper::decode::<GameEventMessage>(&first.data).unwrap(), honest);
    assert_eq!(channel.receive_signed().unwrap_err(), ChannelError::SignerNotApproved);
    assert_eq!(channel.receive_signed().unwrap_err(), ChannelError::Decode);
    assert_eq!(channel.receive_signed().unwrap(), None);

    assert_eq!(GossipMessage { data: Vec::new() }.verify().unwrap_err(), ChannelError::Decode);
    assert_eq!(SignableMessage::verify(&honest), Ok(()));
}

#[test]
fn queue_hands_messages_out_in_order() {
    let mut channel: Queue<u8> = Queue::new();
    channel.send(1).unwrap();
    channel.send(2).unwrap();
    assert_eq!(channel.len(), 2);
    assert_eq!(channel.try_receive(), Ok(Some(1)));
    channel.close();
    assert_eq!(channel.try_receive(), Ok(Some(2)));
    assert_eq!(channel.try_receive(), Err(ChannelError::Disconnected));
}
