//! The logic of `audio2mqtt`, a service that turns speech into transcripts.
//!
//! Audio comes in as a TCP stream of raw PCM, from the speakers of a TeamSpeak
//! server, or in REST requests. It is cut into segments of speech, transcribed,
//! and delivered as JSON to files, webhooks and an MQTT broker. The modules hold
//! what is decided and computed on the way; the program around them does the
//! input and output.
//!
//! Numbers in floating point are held as their bit patterns (`floats`), and
//! samples as values of any type, since nothing here computes with them.

pub mod audio;
pub mod channel_laws;
pub mod channels;
pub mod config;
pub mod config_laws;
pub mod delivery;
pub mod encoding;
pub mod floats;
pub mod huggingface;
pub mod identity;
pub mod jobs;
pub mod json;
pub mod manager;
pub mod manager_laws;
pub mod models;
pub mod receiver_laws;
pub mod replies;
pub mod reply_laws;
pub mod repo_laws;
pub mod requests;
pub mod rest;
pub mod segment_laws;
pub mod segmenter;
pub mod session;
pub mod setting_laws;
pub mod settings;
pub mod speaker_laws;
pub mod speakers;
pub mod teamspeak;
pub mod text;
pub mod text_laws;
pub mod transcriber;
pub mod wav;
