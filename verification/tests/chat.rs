use alephchat::chat::{Chat, ChatCreateCommand};
use alephchat::message::{InitMessage, MessageCreateCommand};
use ink::env::DefaultEnvironment;
use ink::primitives::AccountId;

fn three_participants() -> (AccountId, AccountId, AccountId) {
    (AccountId::from([0; 32]), AccountId::from([1; 32]), AccountId::from([2; 32]))
}

fn hello_chat(id: u64, now: u64) -> Chat {
    let (p1, p2, p3) = three_participants();
    Chat::new_at(
        ChatCreateCommand {
            participants: vec![p1, p2, p3],
            init_message: InitMessage {
                init_message: MessageCreateCommand {
                    author: p1,
                    message: "Hello world!".to_string(),
                },
                encrypted_cypher: vec![vec![0], vec![1], vec![2]],
            },
        },
        id,
        now,
    )
}

#[test]
fn new_chat_works() {
    let mut participants = Vec::new();
    let participant_1 = AccountId::from([0; 32]);
    let participant_2 = AccountId::from([1; 32]);
    let participant_3 = AccountId::from([2; 32]);

    let mut participant_1_cypher = Vec::<u8>::new();
    participant_1_cypher.push(0);
    let mut participant_2_cypher = Vec::<u8>::new();
    participant_2_cypher.push(1);
    let mut participant_3_cypher = Vec::<u8>::new();
    participant_3_cypher.push(2);

    participants.push(participant_1);
    participants.push(participant_2);
    participants.push(participant_3);

    let mut encrypted_cypher = Vec::default();
    encrypted_cypher.insert(0, participant_1_cypher.clone());
    encrypted_cypher.insert(1, participant_2_cypher.clone());
    encrypted_cypher.insert(2, participant_3_cypher.clone());

    let author = AccountId::from([0; 32]);
    let message_content = "Hello world!".to_string();
    let id = 0;

    let create_chat_command = ChatCreateCommand {
        participants: participants.clone(),
        init_message: InitMessage {
            init_message: MessageCreateCommand { author, message: message_content.clone() },
            encrypted_cypher,
        },
    };

    let new_chat = Chat::new(create_chat_command, id);

    assert_eq!(new_chat.id, id);
    assert_eq!(new_chat.participants.len(), participants.len());
    assert_eq!(new_chat.participants.contains(&participant_1), true);
    assert_eq!(new_chat.participants.contains(&participant_2), true);
    assert_eq!(new_chat.participants.contains(&participant_3), true);
    assert_eq!(new_chat.encrypted_cypher.get(0).unwrap(), &participant_1_cypher);
    assert_eq!(new_chat.encrypted_cypher.get(1).unwrap(), &participant_2_cypher);
    assert_eq!(new_chat.encrypted_cypher.get(2).unwrap(), &participant_3_cypher);
    assert_eq!(new_chat.messages.len(), 1);
    assert_eq!(new_chat.messages.get(0).unwrap().message, message_content);
    assert_eq!(new_chat.next_message_id, id + 1);
}

#[test]
fn new_chat_at_holds_exactly_its_first_message() {
    let (p1, p2, p3) = three_participants();
    let chat = hello_chat(17, 5000);

    assert_eq!(chat.id, 17);
    assert_eq!(chat.participants, vec![p1, p2, p3]);
    assert_eq!(chat.encrypted_cypher, vec![vec![0], vec![1], vec![2]]);
    assert_eq!(chat.next_message_id, 1);
    assert_eq!(chat.messages.len(), 1);
    let first = &chat.messages[0];
    assert_eq!(first.id, 0);
    assert_eq!(first.chat_id, 17);
    assert_eq!(first.author, p1);
    assert_eq!(first.message, "Hello world!");
    assert_eq!(first.timestamp, 5000);
}

#[test]
fn new_chat_without_participants() {
    let author = AccountId::from([4; 32]);
    let chat = Chat::new_at(
        ChatCreateCommand {
            participants: Vec::new(),
            init_message: InitMessage::new(
                MessageCreateCommand { author, message: "alone".to_string() },
                Vec::new(),
            ),
        },
        0,
        1,
    );

    assert_eq!(chat.participants.len(), 0);
    assert_eq!(chat.encrypted_cypher.len(), 0);
    assert_eq!(chat.messages.len(), 1);
    assert_eq!(chat.messages[0].author, author);
    assert_eq!(chat.find_cypher(&author), None);
}

#[test]
fn new_chat_carries_the_block_time() {
    ink::env::test::set_block_timestamp::<DefaultEnvironment>(4321);
    let (p1, p2, _) = three_participants();
    let chat = Chat::new(
        ChatCreateCommand {
            participants: vec![p1, p2],
            init_message: InitMessage::new(
                MessageCreateCommand { author: p1, message: "now".to_string() },
                vec![vec![8], vec![9]],
            ),
        },
        3,
    );
    assert_eq!(chat.messages[0].timestamp, 4321);

    ink::env::test::set_block_timestamp::<DefaultEnvironment>(4400);
    let chat = chat.add_message(MessageCreateCommand { author: p2, message: "later".to_string() });
    assert_eq!(chat.messages.len(), 2);
    assert_eq!(chat.messages[0].timestamp, 4321);
    assert_eq!(chat.messages[1].timestamp, 4400);
    assert_eq!(chat.messages[1].id, 1);
    assert_eq!(chat.messages[1].chat_id, 3);
    assert_eq!(chat.messages[1].author, p2);
    assert_eq!(chat.messages[1].message, "later");
    assert_eq!(chat.next_message_id, 2);
}

#[test]
fn add_message_at_appends_with_the_next_number() {
    let (p1, p2, p3) = three_participants();
    let chat = hello_chat(0, 10);
    let chat = chat.add_message_at(
        MessageCreateCommand { author: p2, message: "Goodbye world!".to_string() },
        20,
    );

    assert_eq!(chat.id, 0);
    assert_eq!(chat.participants, vec![p1, p2, p3]);
    assert_eq!(chat.encrypted_cypher, vec![vec![0], vec![1], vec![2]]);
    assert_eq!(chat.messages.len(), 2);
    assert_eq!(chat.next_message_id, 2);
    assert_eq!(chat.messages[0].message, "Hello world!");
    assert_eq!(chat.messages[0].timestamp, 10);
    assert_eq!(chat.messages[1].id, 1);
    assert_eq!(chat.messages[1].chat_id, 0);
    assert_eq!(chat.messages[1].author, p2);
    assert_eq!(chat.messages[1].message, "Goodbye world!");
    assert_eq!(chat.messages[1].timestamp, 20);
}

#[test]
fn add_message_accepts_an_author_who_is_no_participant() {
    let stranger = AccountId::from([200; 32]);
    let chat = hello_chat(2, 10);
    let chat =
        chat.add_message_at(MessageCreateCommand { author: stranger, message: "hi".to_string() }, 11);

    assert_eq!(chat.messages.len(), 2);
    assert_eq!(chat.messages[1].author, stranger);
    assert_eq!(chat.participants.contains(&stranger), false);
}

#[test]
fn log_is_numbered_without_gaps_and_keys_stay_aligned() {
    let (p1, p2, p3) = three_participants();
    let authors = [p2, p3, p1, p2, p2];
    let mut chat = hello_chat(6, 100);
    for (step, author) in authors.iter().enumerate() {
        chat = chat.add_message_at(
            MessageCreateCommand { author: *author, message: format!("message {}", step + 1) },
            101 + step as u64,
        );
        assert_eq!(chat.participants.len(), chat.encrypted_cypher.len());
        assert_eq!(chat.messages.len() as u64, chat.next_message_id);
    }

    assert_eq!(chat.next_message_id, 6);
    for (position, message) in chat.messages.iter().enumerate() {
        assert_eq!(message.id, position as u64);
        assert_eq!(message.chat_id, 6);
    }
    assert_eq!(chat.messages[3].message, "message 3");
    assert_eq!(chat.messages[3].author, p1);
    assert_eq!(chat.messages[5].timestamp, 105);
    assert_eq!(chat.participants, vec![p1, p2, p3]);
    assert_eq!(chat.encrypted_cypher, vec![vec![0], vec![1], vec![2]]);
}

#[test]
fn get_cypher_hands_out_the_key_of_the_participant() {
    let (p1, p2, p3) = three_participants();
    assert_eq!(hello_chat(0, 1).get_cypher(p1), vec![0]);
    assert_eq!(hello_chat(0, 1).get_cypher(p2), vec![1]);
    assert_eq!(hello_chat(0, 1).get_cypher(p3), vec![2]);
}

#[test]
fn find_cypher_tells_participants_from_strangers() {
    let (p1, p2, p3) = three_participants();
    let stranger = AccountId::from([3; 32]);
    let chat = hello_chat(0, 1);

    assert_eq!(chat.find_cypher(&p1), Some(vec![0]));
    assert_eq!(chat.find_cypher(&p2), Some(vec![1]));
    assert_eq!(chat.find_cypher(&p3), Some(vec![2]));
    assert_eq!(chat.find_cypher(&stranger), None);
}

#[test]
fn key_lookup_read_twice_gives_the_same_bytes() {
    let (_, p2, _) = three_participants();
    let chat = hello_chat(0, 1);

    let first = chat.find_cypher(&p2);
    let second = chat.find_cypher(&p2);
    assert_eq!(first, second);
    assert_eq!(first, Some(vec![1]));

    let copy = chat.clone();
    assert_eq!(copy.get_cypher(p2), chat.get_cypher(p2));
}

#[test]
fn key_lookup_takes_the_first_position_of_a_repeated_participant() {
    let p1 = AccountId::from([11; 32]);
    let p2 = AccountId::from([12; 32]);
    let chat = Chat::new_at(
        ChatCreateCommand {
            participants: vec![p1, p2, p1],
            init_message: InitMessage::new(
                MessageCreateCommand { author: p1, message: "x".to_string() },
                vec![vec![1, 1], vec![2, 2], vec![3, 3]],
            ),
        },
        0,
        0,
    );

    assert_eq!(chat.find_cypher(&p1), Some(vec![1, 1]));
    assert_eq!(chat.find_cypher(&p2), Some(vec![2, 2]));
}

#[test]
fn find_cypher_finds_nothing_where_the_keys_end_early() {
    let (p1, p2, p3) = three_participants();
    let mut chat = hello_chat(0, 1);
    chat.encrypted_cypher.truncate(2);

    assert_eq!(chat.find_cypher(&p1), Some(vec![0]));
    assert_eq!(chat.find_cypher(&p2), Some(vec![1]));
    assert_eq!(chat.find_cypher(&p3), None);
}

#[test]
fn chat_clone_is_equal_field_by_field() {
    let (p1, p2, p3) = three_participants();
    let chat = hello_chat(8, 30)
        .add_message_at(MessageCreateCommand { author: p3, message: "second".to_string() }, 31);
    let copy = chat.clone();

    assert_eq!(copy.id, 8);
    assert_eq!(copy.participants, vec![p1, p2, p3]);
    assert_eq!(copy.encrypted_cypher, vec![vec![0], vec![1], vec![2]]);
    assert_eq!(copy.next_message_id, 2);
    assert_eq!(copy.messages.len(), 2);
    assert_eq!(copy.messages[1].message, "second");
    assert_eq!(copy.messages[1].author, p3);
    assert_eq!(copy.messages[1].timestamp, 31);
    assert_eq!(chat.messages.len(), 2);
}

#[test]
fn create_command_clone_is_equal_field_by_field() {
    let (p1, p2, _) = three_participants();
    let command = ChatCreateCommand {
        participants: vec![p1, p2],
        init_message: InitMessage::new(
            MessageCreateCommand { author: p2, message: "c".to_string() },
            vec![vec![5], vec![6]],
        ),
    };
    let copy = command.clone();

    assert_eq!(copy.participants, vec![p1, p2]);
    assert_eq!(copy.init_message.init_message.author, p2);
    assert_eq!(copy.init_message.init_message.message, "c");
    assert_eq!(copy.init_message.encrypted_cypher, vec![vec![5], vec![6]]);
}
