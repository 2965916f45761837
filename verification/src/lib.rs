//! A BPMN 2.0 process engine: a statically checked process model (flow
//! objects, sequence flows, scripts) together with a token-based interpreter
//! that advances tokens through the process graph, routing them at gateways.

pub mod activity;
pub mod errors;
pub mod execution_context;
pub mod event;
pub mod flow_objects;
pub mod gateway;
pub mod path_identifier;
pub mod process;
pub mod process_engine;
pub mod process_instance;
pub mod runtime_errors;
pub mod script;
pub mod sequence_flows;
pub mod task;
pub mod token;
pub mod token_id;
pub mod xml_parser;
pub mod text;
