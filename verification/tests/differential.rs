use serde_json::{Number, Value};
use signit::codec::{decode, encode};
use signit::envelope::SignedEnvelope;
use signit::error::Error;

struct Dice(u64);

impl Dice {
    fn next(&mut self) -> u64 {
        self.0 = self.0.wrapping_mul(6364136223846793005).wrapping_add(1442695040888963407);
        self.0 >> 33
    }

    fn below(&mut self, n: usize) -> usize {
        (self.next() % n as u64) as usize
    }
}

const LETTERS: [char; 24] = [
    'a', 'b', 'm', 'e', 's', 'g', '"', '\\', '/', '\n', '\t', '\r', '\u{0}', '\u{1f}', ' ', '{',
    '}', '[', ']', ',', ':', 'é', '日', '😀',
];

const MARKS: [char; 22] = [
    '{', '}', '[', ']', '"', ',', ':', '\\', ' ', '\n', 'n', 't', 'u', '0', '1', 'e', '-', '.',
    'a', 'l', 'é', '\u{1}',
];

fn random_text(dice: &mut Dice) -> String {
    let len = dice.below(8);
    (0..len).map(|_| LETTERS[dice.below(LETTERS.len())]).collect()
}

fn random_value(dice: &mut Dice, depth: usize) -> Value {
    match dice.below(if depth == 0 { 5 } else { 7 }) {
        0 => Value::Null,
        1 => Value::Bool(dice.below(2) == 0),
        2 => Value::Number(Number::from(dice.next() as i64 - 1_000_000)),
        3 => Value::Number(Number::from(dice.below(10))),
        4 => Value::String(random_text(dice)),
        5 => Value::Array((0..dice.below(4)).map(|_| random_value(dice, depth - 1)).collect()),
        _ => {
            let mut map = serde_json::Map::new();
            for _ in 0..dice.below(4) {
                map.insert(random_text(dice), random_value(dice, depth - 1));
            }
            Value::Object(map)
        }
    }
}

fn random_signature(dice: &mut Dice) -> String {
    let bytes: Vec<u8> = (0..64).map(|_| dice.below(256) as u8).collect();
    base64::encode(bytes)
}

fn is_known(key: &str) -> bool {
    key == "message" || key == "signature" || key == "github_user"
}

fn random_object(dice: &mut Dice) -> (Value, SignedEnvelope) {
    let envelope = SignedEnvelope {
        message: random_text(dice),
        signature: random_signature(dice),
        identity: if dice.below(2) == 0 { Some(random_text(dice)) } else { None },
    };
    let mut map = serde_json::Map::new();
    for _ in 0..dice.below(4) {
        let key = format!("x{}", random_text(dice));
        map.insert(key, random_value(dice, 3));
    }
    map.insert("message".to_string(), Value::String(envelope.message.clone()));
    map.insert("signature".to_string(), Value::String(envelope.signature.clone()));
    match &envelope.identity {
        Some(id) => {
            map.insert("github_user".to_string(), Value::String(id.clone()));
        }
        None => {
            if dice.below(2) == 0 {
                map.insert("github_user".to_string(), Value::Null);
            }
        }
    }
    (Value::Object(map), envelope)
}

fn expected_of(text: &str) -> Result<SignedEnvelope, Error> {
    let map = match serde_json::from_str::<Value>(text) {
        Ok(Value::Object(map)) => map,
        _ => return Err(Error::MalformedEnvelope),
    };
    let message = match map.get("message") {
        Some(Value::String(m)) => m.clone(),
        _ => return Err(Error::MalformedEnvelope),
    };
    let signature = match map.get("signature") {
        Some(Value::String(s)) => s.clone(),
        _ => return Err(Error::MalformedEnvelope),
    };
    let identity = match map.get("github_user") {
        Some(Value::String(id)) => Some(id.clone()),
        Some(Value::Null) | None => None,
        _ => return Err(Error::MalformedEnvelope),
    };
    match base64::decode(&signature) {
        Ok(bytes) if bytes.len() == 64 => Ok(SignedEnvelope { message, signature, identity }),
        _ => Err(Error::InvalidSignatureEncoding),
    }
}

fn known_keys_once(text: &str) -> bool {
    let quoted = ["\"message\"", "\"signature\"", "\"github_user\""];
    quoted.iter().all(|key| text.matches(key).count() <= 1) && !text.contains("\\u")
}

fn mutated(text: &str, dice: &mut Dice) -> String {
    let mut chars: Vec<char> = text.chars().collect();
    let at = dice.below(chars.len() + 1);
    match dice.below(4) {
        0 => chars.truncate(at),
        1 => {
            if at < chars.len() {
                chars.remove(at);
            }
        }
        2 => chars.insert(at, MARKS[dice.below(MARKS.len())]),
        _ => {
            if at < chars.len() {
                chars[at] = MARKS[dice.below(MARKS.len())];
            }
        }
    }
    chars.into_iter().collect()
}

#[test]
fn objects_written_by_serde_json_are_read() {
    let mut dice = Dice(1);
    for round in 0..1500 {
        let (value, envelope) = random_object(&mut dice);
        let compact = serde_json::to_string(&value).unwrap();
        let pretty = serde_json::to_string_pretty(&value).unwrap();
        assert_eq!(decode(&compact), Ok(envelope.clone()), "round {}: {}", round, compact);
        assert_eq!(decode(&pretty), Ok(envelope), "round {}: {}", round, pretty);
    }
}

#[test]
fn damaged_texts_are_judged_as_serde_json_judges_them() {
    let mut dice = Dice(2);
    let mut accepted = 0;
    let mut refused = 0;
    for round in 0..1500 {
        let (value, _) = random_object(&mut dice);
        let text = if dice.below(2) == 0 {
            serde_json::to_string(&value).unwrap()
        } else {
            serde_json::to_string_pretty(&value).unwrap()
        };
        for _ in 0..6 {
            let damaged = mutated(&text, &mut dice);
            if !known_keys_once(&damaged) {
                continue;
            }
            let expected = expected_of(&damaged);
            if expected.is_ok() {
                accepted += 1;
            } else {
                refused += 1;
            }
            assert_eq!(decode(&damaged), expected, "round {}: {:?}", round, damaged);
        }
    }
    assert!(accepted > 100, "{} accepted", accepted);
    assert!(refused > 100, "{} refused", refused);
}

#[test]
fn random_envelopes_survive_the_wire() {
    let mut dice = Dice(3);
    for round in 0..1500 {
        let (_, envelope) = random_object(&mut dice);
        for pretty in [false, true] {
            let text = encode(&envelope, pretty);
            assert_eq!(decode(&text), Ok(envelope.clone()), "round {}: {}", round, text);
            assert_eq!(expected_of(&text), Ok(envelope.clone()), "round {}: {}", round, text);
        }
    }
}
