//! What is measured: the metrics, what each event of the server adds to them, and which moments
//! of an utterance are recorded.
//!
//! Durations and moments are whole microseconds.

use vstd::prelude::*;

use crate::llm::ModelTier;

verus! {

/// How the processing of an utterance ended.
#[derive(Clone, Copy, Debug, PartialEq, Eq, Structural)]
pub enum PipelineResult {
    Success,
    Failed,
    Timeout,
    Cancelled,
    EmptyResponse,
}

impl PipelineResult {
    pub open spec fn label_spec(self) -> Seq<char> {
        match self {
            PipelineResult::Success => "success"@,
            PipelineResult::Failed => "failed"@,
            PipelineResult::Timeout => "timeout"@,
            PipelineResult::Cancelled => "cancelled"@,
            PipelineResult::EmptyResponse => "empty_response"@,
        }
    }

    pub fn label(self) -> (r: &'static str)
        ensures
            r@ == self.label_spec(),
    {
        match self {
            PipelineResult::Success => "success",
            PipelineResult::Failed => "failed",
            PipelineResult::Timeout => "timeout",
            PipelineResult::Cancelled => "cancelled",
            PipelineResult::EmptyResponse => "empty_response",
        }
    }
}

/// Why the agent falls back to the strong model.
#[derive(Clone, Copy, Debug, PartialEq, Eq, Structural)]
pub enum EscalationReason {
    Timeout,
    EmptyResponse,
    ProviderError,
}

impl EscalationReason {
    pub open spec fn label_spec(self) -> Seq<char> {
        match self {
            EscalationReason::Timeout => "timeout"@,
            EscalationReason::EmptyResponse => "empty_response"@,
            EscalationReason::ProviderError => "provider_error"@,
        }
    }

    pub fn label(self) -> (r: &'static str)
        ensures
            r@ == self.label_spec(),
    {
        match self {
            EscalationReason::Timeout => "timeout",
            EscalationReason::EmptyResponse => "empty_response",
            EscalationReason::ProviderError => "provider_error",
        }
    }
}

/// What kind of number a metric is.
#[derive(Clone, Copy, Debug, PartialEq, Eq, Structural)]
pub enum MetricKind {
    Counter,
    /// A counter for each combination of label values.
    CounterVec,
    Gauge,
    Histogram,
}

/// The metrics.
#[derive(Clone, Copy, Debug, PartialEq, Eq, Structural)]
pub enum Metric {
    RequestsTotal,
    RequestsFinishedTotal,
    RequestsSuccessTotal,
    RequestsFailedTotal,
    RequestsTimeoutTotal,
    RequestsCancelledTotal,
    E2eInputToFirstAudio,
    TtsWsConnectTotal,
    TtsWsConnectFailedTotal,
    TtsProviderErrorsTotal,
    TtsInputCharsTotal,
    TtsAudioChunksTotal,
    TtsAudioBytesTotal,
    TtsWsPoolConnections,
    TtsWsPoolActiveConnections,
    TtsWsPoolIdleConnections,
    TtsWsPoolWaiting,
    TtsWsPoolWaitDuration,
    TtsWsPoolReapedTotal,
    TtsWsPoolInvalidatedTotal,
    TtsAudioDuration,
    TtsAudioChunkInterval,
    TtsRealtimeFactor,
    ClientFirstAudioReceivedToPlayback,
    ClientInputEndToFinalAudioSent,
    RequestsRetriedTotal,
    TtsInputWait,
    InputEndToAsrOutputEnd,
    InputEndToLlmFirstText,
    InputEndToTtsFirstFrame,
    InputEndToWsFirstAudioSent,
    LlmFirstTextToTtsFirstFrame,
    TtsFirstFrameToWsFirstAudioSent,
    E2eInputToComplete,
    E2eUtteranceEndToComplete,
    AsrInputToOutputEnd,
    PipelineQueueDuration,
    LlmInputToFirstText,
    LlmDuration,
    LlmRouteDuration,
    LlmRouteTotal,
    LlmEscalationTotal,
    TtsTimeToFirstAudio,
    TtsGenerationDuration,
    PipelineDuration,
}

/// The metrics in the order in which they are registered.
pub open spec fn all_metrics() -> Seq<Metric> {
    seq![
        Metric::RequestsTotal,
        Metric::RequestsFinishedTotal,
        Metric::RequestsSuccessTotal,
        Metric::RequestsFailedTotal,
        Metric::RequestsTimeoutTotal,
        Metric::RequestsCancelledTotal,
        Metric::E2eInputToFirstAudio,
        Metric::TtsWsConnectTotal,
        Metric::TtsWsConnectFailedTotal,
        Metric::TtsProviderErrorsTotal,
        Metric::TtsInputCharsTotal,
        Metric::TtsAudioChunksTotal,
        Metric::TtsAudioBytesTotal,
        Metric::TtsWsPoolConnections,
        Metric::TtsWsPoolActiveConnections,
        Metric::TtsWsPoolIdleConnections,
        Metric::TtsWsPoolWaiting,
        Metric::TtsWsPoolWaitDuration,
        Metric::TtsWsPoolReapedTotal,
        Metric::TtsWsPoolInvalidatedTotal,
        Metric::TtsAudioDuration,
        Metric::TtsAudioChunkInterval,
        Metric::TtsRealtimeFactor,
        Metric::ClientFirstAudioReceivedToPlayback,
        Metric::ClientInputEndToFinalAudioSent,
        Metric::RequestsRetriedTotal,
        Metric::TtsInputWait,
        Metric::InputEndToAsrOutputEnd,
        Metric::InputEndToLlmFirstText,
        Metric::InputEndToTtsFirstFrame,
        Metric::InputEndToWsFirstAudioSent,
        Metric::LlmFirstTextToTtsFirstFrame,
        Metric::TtsFirstFrameToWsFirstAudioSent,
        Metric::E2eInputToComplete,
        Metric::E2eUtteranceEndToComplete,
        Metric::AsrInputToOutputEnd,
        Metric::PipelineQueueDuration,
        Metric::LlmInputToFirstText,
        Metric::LlmDuration,
        Metric::LlmRouteDuration,
        Metric::LlmRouteTotal,
        Metric::LlmEscalationTotal,
        Metric::TtsTimeToFirstAudio,
        Metric::TtsGenerationDuration,
        Metric::PipelineDuration,
    ]
}

impl Metric {
    /// The metrics in the order in which they are registered.
    pub fn all() -> (r: Vec<Metric>)
        ensures
            r@ == all_metrics(),
    {
        let v: Vec<Metric> = vec![
            Metric::RequestsTotal,
            Metric::RequestsFinishedTotal,
            Metric::RequestsSuccessTotal,
            Metric::RequestsFailedTotal,
            Metric::RequestsTimeoutTotal,
            Metric::RequestsCancelledTotal,
            Metric::E2eInputToFirstAudio,
            Metric::TtsWsConnectTotal,
            Metric::TtsWsConnectFailedTotal,
            Metric::TtsProviderErrorsTotal,
            Metric::TtsInputCharsTotal,
            Metric::TtsAudioChunksTotal,
            Metric::TtsAudioBytesTotal,
            Metric::TtsWsPoolConnections,
            Metric::TtsWsPoolActiveConnections,
            Metric::TtsWsPoolIdleConnections,
            Metric::TtsWsPoolWaiting,
            Metric::TtsWsPoolWaitDuration,
            Metric::TtsWsPoolReapedTotal,
            Metric::TtsWsPoolInvalidatedTotal,
            Metric::TtsAudioDuration,
            Metric::TtsAudioChunkInterval,
            Metric::TtsRealtimeFactor,
            Metric::ClientFirstAudioReceivedToPlayback,
            Metric::ClientInputEndToFinalAudioSent,
            Metric::RequestsRetriedTotal,
            Metric::TtsInputWait,
            Metric::InputEndToAsrOutputEnd,
            Metric::InputEndToLlmFirstText,
            Metric::InputEndToTtsFirstFrame,
            Metric::InputEndToWsFirstAudioSent,
            Metric::LlmFirstTextToTtsFirstFrame,
            Metric::TtsFirstFrameToWsFirstAudioSent,
            Metric::E2eInputToComplete,
            Metric::E2eUtteranceEndToComplete,
            Metric::AsrInputToOutputEnd,
            Metric::PipelineQueueDuration,
            Metric::LlmInputToFirstText,
            Metric::LlmDuration,
            Metric::LlmRouteDuration,
            Metric::LlmRouteTotal,
            Metric::LlmEscalationTotal,
            Metric::TtsTimeToFirstAudio,
            Metric::TtsGenerationDuration,
            Metric::PipelineDuration,
        ];
        assert(v@ =~= all_metrics());
        v
    }

    pub open spec fn name_spec(self) -> Seq<char> {
        match self {
            Metric::RequestsTotal => "voice_requests_total"@,
            Metric::RequestsFinishedTotal => "voice_requests_finished_total"@,
            Metric::RequestsSuccessTotal => "voice_requests_success_total"@,
            Metric::RequestsFailedTotal => "voice_requests_failed_total"@,
            Metric::RequestsTimeoutTotal => "voice_requests_timeout_total"@,
            Metric::RequestsCancelledTotal => "voice_requests_cancelled_total"@,
            Metric::E2eInputToFirstAudio => "voice_e2e_input_to_tts_first_audio_seconds"@,
            Metric::TtsWsConnectTotal => "voice_tts_ws_connect_total"@,
            Metric::TtsWsConnectFailedTotal => "voice_tts_ws_connect_failed_total"@,
            Metric::TtsProviderErrorsTotal => "voice_tts_provider_errors_total"@,
            Metric::TtsInputCharsTotal => "voice_tts_input_chars_total"@,
            Metric::TtsAudioChunksTotal => "voice_tts_audio_chunks_total"@,
            Metric::TtsAudioBytesTotal => "voice_tts_audio_bytes_total"@,
            Metric::TtsWsPoolConnections => "voice_tts_ws_pool_connections"@,
            Metric::TtsWsPoolActiveConnections => "voice_tts_ws_pool_active_connections"@,
            Metric::TtsWsPoolIdleConnections => "voice_tts_ws_pool_idle_connections"@,
            Metric::TtsWsPoolWaiting => "voice_tts_ws_pool_waiting"@,
            Metric::TtsWsPoolWaitDuration => "voice_tts_ws_pool_wait_duration_seconds"@,
            Metric::TtsWsPoolReapedTotal => "voice_tts_ws_pool_reaped_total"@,
            Metric::TtsWsPoolInvalidatedTotal => "voice_tts_ws_pool_invalidated_total"@,
            Metric::TtsAudioDuration => "voice_tts_audio_duration_seconds"@,
            Metric::TtsAudioChunkInterval => "voice_tts_audio_chunk_interval_seconds"@,
            Metric::TtsRealtimeFactor => "voice_tts_realtime_factor"@,
            Metric::ClientFirstAudioReceivedToPlayback => "voice_client_first_audio_received_to_playback_seconds"@,
            Metric::ClientInputEndToFinalAudioSent => "voice_client_input_end_to_final_audio_sent_seconds"@,
            Metric::RequestsRetriedTotal => "voice_requests_retried_total"@,
            Metric::TtsInputWait => "voice_tts_input_wait_seconds"@,
            Metric::InputEndToAsrOutputEnd => "voice_input_end_to_asr_output_end_seconds"@,
            Metric::InputEndToLlmFirstText => "voice_input_end_to_llm_first_text_seconds"@,
            Metric::InputEndToTtsFirstFrame => "voice_input_end_to_tts_first_frame_seconds"@,
            Metric::InputEndToWsFirstAudioSent => "voice_input_end_to_ws_first_audio_sent_seconds"@,
            Metric::LlmFirstTextToTtsFirstFrame => "voice_llm_first_text_to_tts_first_frame_seconds"@,
            Metric::TtsFirstFrameToWsFirstAudioSent => "voice_tts_first_frame_to_ws_first_audio_sent_seconds"@,
            Metric::E2eInputToComplete => "voice_e2e_input_to_tts_complete_seconds"@,
            Metric::E2eUtteranceEndToComplete => "voice_e2e_utterance_end_to_tts_complete_seconds"@,
            Metric::AsrInputToOutputEnd => "voice_asr_input_to_output_end_seconds"@,
            Metric::PipelineQueueDuration => "voice_pipeline_queue_duration_seconds"@,
            Metric::LlmInputToFirstText => "voice_llm_input_to_first_text_seconds"@,
            Metric::LlmDuration => "voice_llm_duration_seconds"@,
            Metric::LlmRouteDuration => "voice_llm_route_duration_seconds"@,
            Metric::LlmRouteTotal => "voice_llm_route_total"@,
            Metric::LlmEscalationTotal => "voice_llm_escalation_total"@,
            Metric::TtsTimeToFirstAudio => "voice_tts_time_to_first_audio_seconds"@,
            Metric::TtsGenerationDuration => "voice_tts_generation_duration_seconds"@,
            Metric::PipelineDuration => "voice_pipeline_duration_seconds"@,
        }
    }

    /// The name under which the metric is exported.
    pub fn name(self) -> (r: &'static str)
        ensures
            r@ == self.name_spec(),
    {
        match self {
            Metric::RequestsTotal => "voice_requests_total",
            Metric::RequestsFinishedTotal => "voice_requests_finished_total",
            Metric::RequestsSuccessTotal => "voice_requests_success_total",
            Metric::RequestsFailedTotal => "voice_requests_failed_total",
            Metric::RequestsTimeoutTotal => "voice_requests_timeout_total",
            Metric::RequestsCancelledTotal => "voice_requests_cancelled_total",
            Metric::E2eInputToFirstAudio => "voice_e2e_input_to_tts_first_audio_seconds",
            Metric::TtsWsConnectTotal => "voice_tts_ws_connect_total",
            Metric::TtsWsConnectFailedTotal => "voice_tts_ws_connect_failed_total",
            Metric::TtsProviderErrorsTotal => "voice_tts_provider_errors_total",
            Metric::TtsInputCharsTotal => "voice_tts_input_chars_total",
            Metric::TtsAudioChunksTotal => "voice_tts_audio_chunks_total",
            Metric::TtsAudioBytesTotal => "voice_tts_audio_bytes_total",
            Metric::TtsWsPoolConnections => "voice_tts_ws_pool_connections",
            Metric::TtsWsPoolActiveConnections => "voice_tts_ws_pool_active_connections",
            Metric::TtsWsPoolIdleConnections => "voice_tts_ws_pool_idle_connections",
            Metric::TtsWsPoolWaiting => "voice_tts_ws_pool_waiting",
            Metric::TtsWsPoolWaitDuration => "voice_tts_ws_pool_wait_duration_seconds",
            Metric::TtsWsPoolReapedTotal => "voice_tts_ws_pool_reaped_total",
            Metric::TtsWsPoolInvalidatedTotal => "voice_tts_ws_pool_invalidated_total",
            Metric::TtsAudioDuration => "voice_tts_audio_duration_seconds",
            Metric::TtsAudioChunkInterval => "voice_tts_audio_chunk_interval_seconds",
            Metric::TtsRealtimeFactor => "voice_tts_realtime_factor",
            Metric::ClientFirstAudioReceivedToPlayback => "voice_client_first_audio_received_to_playback_seconds",
            Metric::ClientInputEndToFinalAudioSent => "voice_client_input_end_to_final_audio_sent_seconds",
            Metric::RequestsRetriedTotal => "voice_requests_retried_total",
            Metric::TtsInputWait => "voice_tts_input_wait_seconds",
            Metric::InputEndToAsrOutputEnd => "voice_input_end_to_asr_output_end_seconds",
            Metric::InputEndToLlmFirstText => "voice_input_end_to_llm_first_text_seconds",
            Metric::InputEndToTtsFirstFrame => "voice_input_end_to_tts_first_frame_seconds",
            Metric::InputEndToWsFirstAudioSent => "voice_input_end_to_ws_first_audio_sent_seconds",
            Metric::LlmFirstTextToTtsFirstFrame => "voice_llm_first_text_to_tts_first_frame_seconds",
            Metric::TtsFirstFrameToWsFirstAudioSent => "voice_tts_first_frame_to_ws_first_audio_sent_seconds",
            Metric::E2eInputToComplete => "voice_e2e_input_to_tts_complete_seconds",
            Metric::E2eUtteranceEndToComplete => "voice_e2e_utterance_end_to_tts_complete_seconds",
            Metric::AsrInputToOutputEnd => "voice_asr_input_to_output_end_seconds",
            Metric::PipelineQueueDuration => "voice_pipeline_queue_duration_seconds",
            Metric::LlmInputToFirstText => "voice_llm_input_to_first_text_seconds",
            Metric::LlmDuration => "voice_llm_duration_seconds",
            Metric::LlmRouteDuration => "voice_llm_route_duration_seconds",
            Metric::LlmRouteTotal => "voice_llm_route_total",
            Metric::LlmEscalationTotal => "voice_llm_escalation_total",
            Metric::TtsTimeToFirstAudio => "voice_tts_time_to_first_audio_seconds",
            Metric::TtsGenerationDuration => "voice_tts_generation_duration_seconds",
            Metric::PipelineDuration => "voice_pipeline_duration_seconds",
        }
    }

    pub open spec fn help_spec(self) -> Seq<char> {
        match self {
            Metric::RequestsTotal => "Voice utterance pipelines started"@,
            Metric::RequestsFinishedTotal => "Voice utterance pipelines finished"@,
            Metric::RequestsSuccessTotal => "Voice pipelines completed successfully"@,
            Metric::RequestsFailedTotal => "Voice pipelines failed"@,
            Metric::RequestsTimeoutTotal => "Voice pipelines timed out"@,
            Metric::RequestsCancelledTotal => "Voice pipelines cancelled"@,
            Metric::E2eInputToFirstAudio => "Seconds from the first input chunk to the first TTS audio chunk"@,
            Metric::TtsWsConnectTotal => "TTS WebSocket connection attempts"@,
            Metric::TtsWsConnectFailedTotal => "TTS WebSocket connection failures"@,
            Metric::TtsProviderErrorsTotal => "TTS provider errors"@,
            Metric::TtsInputCharsTotal => "Characters submitted to TTS"@,
            Metric::TtsAudioChunksTotal => "TTS audio chunks received"@,
            Metric::TtsAudioBytesTotal => "TTS audio bytes received"@,
            Metric::TtsWsPoolConnections => "TTS WebSocket pool connections"@,
            Metric::TtsWsPoolActiveConnections => "TTS WebSocket pool active connections"@,
            Metric::TtsWsPoolIdleConnections => "TTS WebSocket pool idle connections"@,
            Metric::TtsWsPoolWaiting => "Requests waiting for a TTS WebSocket pool connection"@,
            Metric::TtsWsPoolWaitDuration => "Seconds spent waiting for a TTS WebSocket pool connection"@,
            Metric::TtsWsPoolReapedTotal => "TTS WebSocket pool connections reaped after idling"@,
            Metric::TtsWsPoolInvalidatedTotal => "TTS WebSocket pool connections invalidated"@,
            Metric::TtsAudioDuration => "Duration represented by TTS audio output"@,
            Metric::TtsAudioChunkInterval => "Interval between TTS audio chunks"@,
            Metric::TtsRealtimeFactor => "TTS audio duration divided by generation duration"@,
            Metric::ClientFirstAudioReceivedToPlayback => "Seconds from first TTS audio received by the client to playback start"@,
            Metric::ClientInputEndToFinalAudioSent => "Seconds from client input end detection until the final audio frame is accepted by WebSocket.send"@,
            Metric::RequestsRetriedTotal => "Voice requests retried"@,
            Metric::TtsInputWait => "Seconds from TTS input.text to input.done"@,
            Metric::InputEndToAsrOutputEnd => "Seconds from receiving the final input audio frame to the final ASR output"@,
            Metric::InputEndToLlmFirstText => "Seconds from receiving the final input audio frame to the first non-empty LLM text"@,
            Metric::InputEndToTtsFirstFrame => "Seconds from receiving the final input audio frame to the first non-empty TTS audio frame"@,
            Metric::InputEndToWsFirstAudioSent => "Seconds from receiving the final input audio frame until the first audio WebSocket message enters the outbound queue"@,
            Metric::LlmFirstTextToTtsFirstFrame => "Seconds from the first non-empty LLM text to the first non-empty TTS audio frame"@,
            Metric::TtsFirstFrameToWsFirstAudioSent => "Seconds from the first non-empty TTS audio frame until its WebSocket message enters the outbound queue"@,
            Metric::E2eInputToComplete => "Seconds from the first input chunk to pipeline completion"@,
            Metric::E2eUtteranceEndToComplete => "Seconds from the final input chunk to pipeline completion"@,
            Metric::AsrInputToOutputEnd => "Seconds from ASR input to the final ASR output"@,
            Metric::PipelineQueueDuration => "Seconds from final input chunk until the ASR request starts"@,
            Metric::LlmInputToFirstText => "Seconds from LLM input to the first non-empty LLM text"@,
            Metric::LlmDuration => "Seconds from LLM/TTS stream start to the final LLM delta"@,
            Metric::LlmRouteDuration => "Seconds spent selecting the LLM model tier"@,
            Metric::LlmRouteTotal => "LLM turns selected by model tier"@,
            Metric::LlmEscalationTotal => "LLM attempts escalated from fast to strong"@,
            Metric::TtsTimeToFirstAudio => "Seconds from TTS input.done to the first TTS audio chunk"@,
            Metric::TtsGenerationDuration => "Seconds from TTS input.done to session.done"@,
            Metric::PipelineDuration => "Total server-side pipeline duration"@,
        }
    }

    /// What the metric tells.
    pub fn help(self) -> (r: &'static str)
        ensures
            r@ == self.help_spec(),
    {
        match self {
            Metric::RequestsTotal => "Voice utterance pipelines started",
            Metric::RequestsFinishedTotal => "Voice utterance pipelines finished",
            Metric::RequestsSuccessTotal => "Voice pipelines completed successfully",
            Metric::RequestsFailedTotal => "Voice pipelines failed",
            Metric::RequestsTimeoutTotal => "Voice pipelines timed out",
            Metric::RequestsCancelledTotal => "Voice pipelines cancelled",
            Metric::E2eInputToFirstAudio => "Seconds from the first input chunk to the first TTS audio chunk",
            Metric::TtsWsConnectTotal => "TTS WebSocket connection attempts",
            Metric::TtsWsConnectFailedTotal => "TTS WebSocket connection failures",
            Metric::TtsProviderErrorsTotal => "TTS provider errors",
            Metric::TtsInputCharsTotal => "Characters submitted to TTS",
            Metric::TtsAudioChunksTotal => "TTS audio chunks received",
            Metric::TtsAudioBytesTotal => "TTS audio bytes received",
            Metric::TtsWsPoolConnections => "TTS WebSocket pool connections",
            Metric::TtsWsPoolActiveConnections => "TTS WebSocket pool active connections",
            Metric::TtsWsPoolIdleConnections => "TTS WebSocket pool idle connections",
            Metric::TtsWsPoolWaiting => "Requests waiting for a TTS WebSocket pool connection",
            Metric::TtsWsPoolWaitDuration => "Seconds spent waiting for a TTS WebSocket pool connection",
            Metric::TtsWsPoolReapedTotal => "TTS WebSocket pool connections reaped after idling",
            Metric::TtsWsPoolInvalidatedTotal => "TTS WebSocket pool connections invalidated",
            Metric::TtsAudioDuration => "Duration represented by TTS audio output",
            Metric::TtsAudioChunkInterval => "Interval between TTS audio chunks",
            Metric::TtsRealtimeFactor => "TTS audio duration divided by generation duration",
            Metric::ClientFirstAudioReceivedToPlayback => "Seconds from first TTS audio received by the client to playback start",
            Metric::ClientInputEndToFinalAudioSent => "Seconds from client input end detection until the final audio frame is accepted by WebSocket.send",
            Metric::RequestsRetriedTotal => "Voice requests retried",
            Metric::TtsInputWait => "Seconds from TTS input.text to input.done",
            Metric::InputEndToAsrOutputEnd => "Seconds from receiving the final input audio frame to the final ASR output",
            Metric::InputEndToLlmFirstText => "Seconds from receiving the final input audio frame to the first non-empty LLM text",
            Metric::InputEndToTtsFirstFrame => "Seconds from receiving the final input audio frame to the first non-empty TTS audio frame",
            Metric::InputEndToWsFirstAudioSent => "Seconds from receiving the final input audio frame until the first audio WebSocket message enters the outbound queue",
            Metric::LlmFirstTextToTtsFirstFrame => "Seconds from the first non-empty LLM text to the first non-empty TTS audio frame",
            Metric::TtsFirstFrameToWsFirstAudioSent => "Seconds from the first non-empty TTS audio frame until its WebSocket message enters the outbound queue",
            Metric::E2eInputToComplete => "Seconds from the first input chunk to pipeline completion",
            Metric::E2eUtteranceEndToComplete => "Seconds from the final input chunk to pipeline completion",
            Metric::AsrInputToOutputEnd => "Seconds from ASR input to the final ASR output",
            Metric::PipelineQueueDuration => "Seconds from final input chunk until the ASR request starts",
            Metric::LlmInputToFirstText => "Seconds from LLM input to the first non-empty LLM text",
            Metric::LlmDuration => "Seconds from LLM/TTS stream start to the final LLM delta",
            Metric::LlmRouteDuration => "Seconds spent selecting the LLM model tier",
            Metric::LlmRouteTotal => "LLM turns selected by model tier",
            Metric::LlmEscalationTotal => "LLM attempts escalated from fast to strong",
            Metric::TtsTimeToFirstAudio => "Seconds from TTS input.done to the first TTS audio chunk",
            Metric::TtsGenerationDuration => "Seconds from TTS input.done to session.done",
            Metric::PipelineDuration => "Total server-side pipeline duration",
        }
    }

    pub open spec fn kind_spec(self) -> MetricKind {
        match self {
            Metric::RequestsTotal => MetricKind::Counter,
            Metric::RequestsFinishedTotal => MetricKind::CounterVec,
            Metric::RequestsSuccessTotal => MetricKind::Counter,
            Metric::RequestsFailedTotal => MetricKind::Counter,
            Metric::RequestsTimeoutTotal => MetricKind::Counter,
            Metric::RequestsCancelledTotal => MetricKind::Counter,
            Metric::E2eInputToFirstAudio => MetricKind::Histogram,
            Metric::TtsWsConnectTotal => MetricKind::Counter,
            Metric::TtsWsConnectFailedTotal => MetricKind::Counter,
            Metric::TtsProviderErrorsTotal => MetricKind::Counter,
            Metric::TtsInputCharsTotal => MetricKind::Counter,
            Metric::TtsAudioChunksTotal => MetricKind::Counter,
            Metric::TtsAudioBytesTotal => MetricKind::Counter,
            Metric::TtsWsPoolConnections => MetricKind::Gauge,
            Metric::TtsWsPoolActiveConnections => MetricKind::Gauge,
            Metric::TtsWsPoolIdleConnections => MetricKind::Gauge,
            Metric::TtsWsPoolWaiting => MetricKind::Gauge,
            Metric::TtsWsPoolWaitDuration => MetricKind::Histogram,
            Metric::TtsWsPoolReapedTotal => MetricKind::Counter,
            Metric::TtsWsPoolInvalidatedTotal => MetricKind::Counter,
            Metric::TtsAudioDuration => MetricKind::Histogram,
            Metric::TtsAudioChunkInterval => MetricKind::Histogram,
            Metric::TtsRealtimeFactor => MetricKind::Histogram,
            Metric::ClientFirstAudioReceivedToPlayback => MetricKind::Histogram,
            Metric::ClientInputEndToFinalAudioSent => MetricKind::Histogram,
            Metric::RequestsRetriedTotal => MetricKind::Counter,
            Metric::TtsInputWait => MetricKind::Histogram,
            Metric::InputEndToAsrOutputEnd => MetricKind::Histogram,
            Metric::InputEndToLlmFirstText => MetricKind::Histogram,
            Metric::InputEndToTtsFirstFrame => MetricKind::Histogram,
            Metric::InputEndToWsFirstAudioSent => MetricKind::Histogram,
            Metric::LlmFirstTextToTtsFirstFrame => MetricKind::Histogram,
            Metric::TtsFirstFrameToWsFirstAudioSent => MetricKind::Histogram,
            Metric::E2eInputToComplete => MetricKind::Histogram,
            Metric::E2eUtteranceEndToComplete => MetricKind::Histogram,
            Metric::AsrInputToOutputEnd => MetricKind::Histogram,
            Metric::PipelineQueueDuration => MetricKind::Histogram,
            Metric::LlmInputToFirstText => MetricKind::Histogram,
            Metric::LlmDuration => MetricKind::Histogram,
            Metric::LlmRouteDuration => MetricKind::Histogram,
            Metric::LlmRouteTotal => MetricKind::CounterVec,
            Metric::LlmEscalationTotal => MetricKind::CounterVec,
            Metric::TtsTimeToFirstAudio => MetricKind::Histogram,
            Metric::TtsGenerationDuration => MetricKind::Histogram,
            Metric::PipelineDuration => MetricKind::Histogram,
        }
    }

    pub fn kind(self) -> (r: MetricKind)
        ensures
            r == self.kind_spec(),
    {
        match self {
            Metric::RequestsTotal => MetricKind::Counter,
            Metric::RequestsFinishedTotal => MetricKind::CounterVec,
            Metric::RequestsSuccessTotal => MetricKind::Counter,
            Metric::RequestsFailedTotal => MetricKind::Counter,
            Metric::RequestsTimeoutTotal => MetricKind::Counter,
            Metric::RequestsCancelledTotal => MetricKind::Counter,
            Metric::E2eInputToFirstAudio => MetricKind::Histogram,
            Metric::TtsWsConnectTotal => MetricKind::Counter,
            Metric::TtsWsConnectFailedTotal => MetricKind::Counter,
            Metric::TtsProviderErrorsTotal => MetricKind::Counter,
            Metric::TtsInputCharsTotal => MetricKind::Counter,
            Metric::TtsAudioChunksTotal => MetricKind::Counter,
            Metric::TtsAudioBytesTotal => MetricKind::Counter,
            Metric::TtsWsPoolConnections => MetricKind::Gauge,
            Metric::TtsWsPoolActiveConnections => MetricKind::Gauge,
            Metric::TtsWsPoolIdleConnections => MetricKind::Gauge,
            Metric::TtsWsPoolWaiting => MetricKind::Gauge,
            Metric::TtsWsPoolWaitDuration => MetricKind::Histogram,
            Metric::TtsWsPoolReapedTotal => MetricKind::Counter,
            Metric::TtsWsPoolInvalidatedTotal => MetricKind::Counter,
            Metric::TtsAudioDuration => MetricKind::Histogram,
            Metric::TtsAudioChunkInterval => MetricKind::Histogram,
            Metric::TtsRealtimeFactor => MetricKind::Histogram,
            Metric::ClientFirstAudioReceivedToPlayback => MetricKind::Histogram,
            Metric::ClientInputEndToFinalAudioSent => MetricKind::Histogram,
            Metric::RequestsRetriedTotal => MetricKind::Counter,
            Metric::TtsInputWait => MetricKind::Histogram,
            Metric::InputEndToAsrOutputEnd => MetricKind::Histogram,
            Metric::InputEndToLlmFirstText => MetricKind::Histogram,
            Metric::InputEndToTtsFirstFrame => MetricKind::Histogram,
            Metric::InputEndToWsFirstAudioSent => MetricKind::Histogram,
            Metric::LlmFirstTextToTtsFirstFrame => MetricKind::Histogram,
            Metric::TtsFirstFrameToWsFirstAudioSent => MetricKind::Histogram,
            Metric::E2eInputToComplete => MetricKind::Histogram,
            Metric::E2eUtteranceEndToComplete => MetricKind::Histogram,
            Metric::AsrInputToOutputEnd => MetricKind::Histogram,
            Metric::PipelineQueueDuration => MetricKind::Histogram,
            Metric::LlmInputToFirstText => MetricKind::Histogram,
            Metric::LlmDuration => MetricKind::Histogram,
            Metric::LlmRouteDuration => MetricKind::Histogram,
            Metric::LlmRouteTotal => MetricKind::CounterVec,
            Metric::LlmEscalationTotal => MetricKind::CounterVec,
            Metric::TtsTimeToFirstAudio => MetricKind::Histogram,
            Metric::TtsGenerationDuration => MetricKind::Histogram,
            Metric::PipelineDuration => MetricKind::Histogram,
        }
    }

    pub open spec fn label_names_spec(self) -> Seq<Seq<char>> {
        match self {
            Metric::RequestsFinishedTotal => seq!["result"@],
            Metric::LlmRouteTotal => seq!["route"@],
            Metric::LlmEscalationTotal => seq!["from"@, "to"@, "reason"@],
            _ => Seq::empty(),
        }
    }

    /// The names of the labels.
    pub fn label_names(self) -> (r: Vec<&'static str>)
        ensures
            r@.len() == self.label_names_spec().len(),
            forall|i: int| 0 <= i < r@.len() ==> (#[trigger] r@[i])@ == self.label_names_spec()[i],
    {
        match self {
            Metric::RequestsFinishedTotal => vec!["result"],
            Metric::LlmRouteTotal => vec!["route"],
            Metric::LlmEscalationTotal => vec!["from", "to", "reason"],
            _ => Vec::new(),
        }
    }
}

/// The upper bounds of a histogram's buckets, in milliseconds.
pub open spec fn bucket_bounds() -> Seq<u64> {
    seq![50u64, 100, 200, 500, 1000, 2000, 5000, 10000, 30000]
}

/// The upper bounds of a histogram's buckets, in milliseconds.
pub fn bucket_millis() -> (r: Vec<u64>)
    ensures
        r@ == bucket_bounds(),
{
    let v: Vec<u64> = vec![50u64, 100, 200, 500, 1000, 2000, 5000, 10000, 30000];
    assert(v@ =~= bucket_bounds());
    v
}

/// Buckets go up.
pub proof fn law_buckets_go_up(i: int, j: int)
    requires
        0 <= i < j < bucket_bounds().len(),
    ensures
        bucket_bounds()[i] < bucket_bounds()[j],
{
}

/// The values of the labels of a counter.
#[derive(Clone, Copy, Debug, PartialEq, Eq, Structural)]
pub enum LabelValues {
    Result(PipelineResult),
    Route(ModelTier),
    Escalation(EscalationReason),
}

impl LabelValues {
    pub open spec fn values_spec(self) -> Seq<Seq<char>> {
        match self {
            LabelValues::Result(r) => seq![r.label_spec()],
            LabelValues::Route(t) => seq![t.name_spec()],
            LabelValues::Escalation(r) => seq!["fast"@, "strong"@, r.label_spec()],
        }
    }

    /// The values in the order of the label names.
    pub fn values(self) -> (r: Vec<&'static str>)
        ensures
            r@.len() == self.values_spec().len(),
            forall|i: int| 0 <= i < r@.len() ==> (#[trigger] r@[i])@ == self.values_spec()[i],
    {
        match self {
            LabelValues::Result(r) => vec![r.label()],
            LabelValues::Route(t) => vec![t.as_str()],
            LabelValues::Escalation(r) => vec!["fast", "strong", r.label()],
        }
    }
}

/// A change to a metric.
#[derive(Clone, Copy, Debug, PartialEq, Eq, Structural)]
pub enum MetricUpdate {
    Inc(Metric),
    IncLabelled(Metric, LabelValues),
    IncBy(Metric, u64),
    GaugeInc(Metric),
    GaugeDec(Metric),
    GaugeSet(Metric, i64),
    /// A duration in microseconds.
    Observe(Metric, u64),
}

/// What the server reports.
#[derive(Clone, Copy, Debug, PartialEq, Eq, Structural)]
pub enum SinkEvent {
    PipelineStarted,
    PipelineDuration(u64),
    Queue(u64),
    Asr(u64),
    LlmFirstToken(u64),
    LlmComplete(u64),
    LlmRoute(ModelTier, u64),
    LlmEscalated(EscalationReason),
    TtsFirstAudio(u64),
    TtsComplete(u64),
    /// From the start and from the end of the input.
    E2eFirstAudio(u64, u64),
    InputEndToAsrOutputEnd(u64),
    InputEndToLlmFirstText(u64),
    InputEndToWsFirstAudioSent(u64),
    LlmFirstTextToTtsFirstFrame(u64),
    TtsFirstFrameToWsFirstAudioSent(u64),
    /// From the start and from the end of the input.
    E2eComplete(u64, u64),
    PipelineFinished(PipelineResult),
    RequestRetried,
    TtsInputWait(u64),
    TtsWsConnect,
    TtsWsConnectFailed,
    TtsProviderError,
    TtsInputChars(u64),
    TtsAudioChunk(u64),
    TtsWsPoolConnectionOpened,
    TtsWsPoolConnectionClosed,
    TtsWsPoolActive(i64),
    TtsWsPoolIdle(i64),
    TtsWsPoolWaiting(i64),
    TtsWsPoolWaitStarted,
    TtsWsPoolWaitFinished(u64),
    TtsWsPoolWait(u64),
    TtsWsPoolReaped,
    TtsWsPoolInvalidated,
    TtsAudioDuration(u64),
    TtsAudioChunkInterval(u64),
    /// Told by a client, so believed only up to `CLIENT_LIMIT_MICROS`.
    ClientFirstAudioReceivedToPlayback(u64),
    /// Told by a client, so believed only up to `CLIENT_LIMIT_MICROS`.
    ClientInputEndToFinalAudioSent(u64),
}

/// The longest duration that a client is believed: 30 seconds.
pub const CLIENT_LIMIT_MICROS: u64 = 30000000;

/// The counter for a way to end.
pub open spec fn result_counter(result: PipelineResult) -> Metric {
    match result {
        PipelineResult::Success => Metric::RequestsSuccessTotal,
        PipelineResult::Timeout => Metric::RequestsTimeoutTotal,
        PipelineResult::Cancelled => Metric::RequestsCancelledTotal,
        PipelineResult::Failed => Metric::RequestsFailedTotal,
        PipelineResult::EmptyResponse => Metric::RequestsFailedTotal,
    }
}

/// The changes that an event brings about, in order.
pub open spec fn updates_spec(event: SinkEvent) -> Seq<MetricUpdate> {
    match event {
        SinkEvent::PipelineStarted => seq![MetricUpdate::Inc(Metric::RequestsTotal)],
        SinkEvent::PipelineDuration(d) => seq![MetricUpdate::Observe(Metric::PipelineDuration, d)],
        SinkEvent::Queue(d) => seq![MetricUpdate::Observe(Metric::PipelineQueueDuration, d)],
        SinkEvent::Asr(d) => seq![MetricUpdate::Observe(Metric::AsrInputToOutputEnd, d)],
        SinkEvent::LlmFirstToken(d) => seq![MetricUpdate::Observe(Metric::LlmInputToFirstText, d)],
        SinkEvent::LlmComplete(d) => seq![MetricUpdate::Observe(Metric::LlmDuration, d)],
        SinkEvent::LlmRoute(tier, d) => seq![MetricUpdate::Observe(Metric::LlmRouteDuration, d), MetricUpdate::IncLabelled(Metric::LlmRouteTotal, LabelValues::Route(tier))],
        SinkEvent::LlmEscalated(reason) => seq![MetricUpdate::IncLabelled(Metric::LlmEscalationTotal, LabelValues::Escalation(reason))],
        SinkEvent::TtsFirstAudio(d) => seq![MetricUpdate::Observe(Metric::TtsTimeToFirstAudio, d)],
        SinkEvent::TtsComplete(d) => seq![MetricUpdate::Observe(Metric::TtsGenerationDuration, d)],
        SinkEvent::E2eFirstAudio(start, end) => seq![MetricUpdate::Observe(Metric::E2eInputToFirstAudio, start), MetricUpdate::Observe(Metric::InputEndToTtsFirstFrame, end)],
        SinkEvent::InputEndToAsrOutputEnd(d) => seq![MetricUpdate::Observe(Metric::InputEndToAsrOutputEnd, d)],
        SinkEvent::InputEndToLlmFirstText(d) => seq![MetricUpdate::Observe(Metric::InputEndToLlmFirstText, d)],
        SinkEvent::InputEndToWsFirstAudioSent(d) => seq![MetricUpdate::Observe(Metric::InputEndToWsFirstAudioSent, d)],
        SinkEvent::LlmFirstTextToTtsFirstFrame(d) => seq![MetricUpdate::Observe(Metric::LlmFirstTextToTtsFirstFrame, d)],
        SinkEvent::TtsFirstFrameToWsFirstAudioSent(d) => seq![MetricUpdate::Observe(Metric::TtsFirstFrameToWsFirstAudioSent, d)],
        SinkEvent::E2eComplete(start, end) => seq![MetricUpdate::Observe(Metric::E2eInputToComplete, start), MetricUpdate::Observe(Metric::E2eUtteranceEndToComplete, end)],
        SinkEvent::PipelineFinished(result) => seq![MetricUpdate::IncLabelled(Metric::RequestsFinishedTotal, LabelValues::Result(result)), MetricUpdate::Inc(result_counter(result))],
        SinkEvent::RequestRetried => seq![MetricUpdate::Inc(Metric::RequestsRetriedTotal)],
        SinkEvent::TtsInputWait(d) => seq![MetricUpdate::Observe(Metric::TtsInputWait, d)],
        SinkEvent::TtsWsConnect => seq![MetricUpdate::Inc(Metric::TtsWsConnectTotal)],
        SinkEvent::TtsWsConnectFailed => seq![MetricUpdate::Inc(Metric::TtsWsConnectFailedTotal)],
        SinkEvent::TtsProviderError => seq![MetricUpdate::Inc(Metric::TtsProviderErrorsTotal)],
        SinkEvent::TtsInputChars(n) => seq![MetricUpdate::IncBy(Metric::TtsInputCharsTotal, n)],
        SinkEvent::TtsAudioChunk(n) => seq![MetricUpdate::Inc(Metric::TtsAudioChunksTotal), MetricUpdate::IncBy(Metric::TtsAudioBytesTotal, n)],
        SinkEvent::TtsWsPoolConnectionOpened => seq![MetricUpdate::GaugeInc(Metric::TtsWsPoolConnections)],
        SinkEvent::TtsWsPoolConnectionClosed => seq![MetricUpdate::GaugeDec(Metric::TtsWsPoolConnections)],
        SinkEvent::TtsWsPoolActive(v) => seq![MetricUpdate::GaugeSet(Metric::TtsWsPoolActiveConnections, v)],
        SinkEvent::TtsWsPoolIdle(v) => seq![MetricUpdate::GaugeSet(Metric::TtsWsPoolIdleConnections, v)],
        SinkEvent::TtsWsPoolWaiting(v) => seq![MetricUpdate::GaugeSet(Metric::TtsWsPoolWaiting, v)],
        SinkEvent::TtsWsPoolWaitStarted => seq![MetricUpdate::GaugeInc(Metric::TtsWsPoolWaiting)],
        SinkEvent::TtsWsPoolWaitFinished(d) => seq![MetricUpdate::GaugeDec(Metric::TtsWsPoolWaiting), MetricUpdate::Observe(Metric::TtsWsPoolWaitDuration, d)],
        SinkEvent::TtsWsPoolWait(d) => seq![MetricUpdate::Observe(Metric::TtsWsPoolWaitDuration, d)],
        SinkEvent::TtsWsPoolReaped => seq![MetricUpdate::Inc(Metric::TtsWsPoolReapedTotal)],
        SinkEvent::TtsWsPoolInvalidated => seq![MetricUpdate::Inc(Metric::TtsWsPoolInvalidatedTotal)],
        SinkEvent::TtsAudioDuration(d) => seq![MetricUpdate::Observe(Metric::TtsAudioDuration, d)],
        SinkEvent::TtsAudioChunkInterval(d) => seq![MetricUpdate::Observe(Metric::TtsAudioChunkInterval, d)],
        SinkEvent::ClientFirstAudioReceivedToPlayback(d) => if d <= CLIENT_LIMIT_MICROS {
            seq![MetricUpdate::Observe(Metric::ClientFirstAudioReceivedToPlayback, d)]
        } else {
            Seq::empty()
        },
        SinkEvent::ClientInputEndToFinalAudioSent(d) => if d <= CLIENT_LIMIT_MICROS {
            seq![MetricUpdate::Observe(Metric::ClientInputEndToFinalAudioSent, d)]
        } else {
            Seq::empty()
        },
    }
}

/// The changes that an event brings about, in order.
pub fn updates(event: SinkEvent) -> (r: Vec<MetricUpdate>)
    ensures
        r@ == updates_spec(event),
{
    let v: Vec<MetricUpdate> = match event {
        SinkEvent::PipelineStarted => vec![MetricUpdate::Inc(Metric::RequestsTotal)],
        SinkEvent::PipelineDuration(d) => vec![MetricUpdate::Observe(Metric::PipelineDuration, d)],
        SinkEvent::Queue(d) => vec![MetricUpdate::Observe(Metric::PipelineQueueDuration, d)],
        SinkEvent::Asr(d) => vec![MetricUpdate::Observe(Metric::AsrInputToOutputEnd, d)],
        SinkEvent::LlmFirstToken(d) => vec![MetricUpdate::Observe(Metric::LlmInputToFirstText, d)],
        SinkEvent::LlmComplete(d) => vec![MetricUpdate::Observe(Metric::LlmDuration, d)],
        SinkEvent::LlmRoute(tier, d) => vec![MetricUpdate::Observe(Metric::LlmRouteDuration, d), MetricUpdate::IncLabelled(Metric::LlmRouteTotal, LabelValues::Route(tier))],
        SinkEvent::LlmEscalated(reason) => vec![MetricUpdate::IncLabelled(Metric::LlmEscalationTotal, LabelValues::Escalation(reason))],
        SinkEvent::TtsFirstAudio(d) => vec![MetricUpdate::Observe(Metric::TtsTimeToFirstAudio, d)],
        SinkEvent::TtsComplete(d) => vec![MetricUpdate::Observe(Metric::TtsGenerationDuration, d)],
        SinkEvent::E2eFirstAudio(start, end) => vec![MetricUpdate::Observe(Metric::E2eInputToFirstAudio, start), MetricUpdate::Observe(Metric::InputEndToTtsFirstFrame, end)],
        SinkEvent::InputEndToAsrOutputEnd(d) => vec![MetricUpdate::Observe(Metric::InputEndToAsrOutputEnd, d)],
        SinkEvent::InputEndToLlmFirstText(d) => vec![MetricUpdate::Observe(Metric::InputEndToLlmFirstText, d)],
        SinkEvent::InputEndToWsFirstAudioSent(d) => vec![MetricUpdate::Observe(Metric::InputEndToWsFirstAudioSent, d)],
        SinkEvent::LlmFirstTextToTtsFirstFrame(d) => vec![MetricUpdate::Observe(Metric::LlmFirstTextToTtsFirstFrame, d)],
        SinkEvent::TtsFirstFrameToWsFirstAudioSent(d) => vec![MetricUpdate::Observe(Metric::TtsFirstFrameToWsFirstAudioSent, d)],
        SinkEvent::E2eComplete(start, end) => vec![MetricUpdate::Observe(Metric::E2eInputToComplete, start), MetricUpdate::Observe(Metric::E2eUtteranceEndToComplete, end)],
        SinkEvent::PipelineFinished(result) => {
            let counter = match result {
                PipelineResult::Success => Metric::RequestsSuccessTotal,
                PipelineResult::Timeout => Metric::RequestsTimeoutTotal,
                PipelineResult::Cancelled => Metric::RequestsCancelledTotal,
                PipelineResult::Failed => Metric::RequestsFailedTotal,
                PipelineResult::EmptyResponse => Metric::RequestsFailedTotal,
            };
            vec![
                MetricUpdate::IncLabelled(
                    Metric::RequestsFinishedTotal,
                    LabelValues::Result(result),
                ),
                MetricUpdate::Inc(counter),
            ]
        },
        SinkEvent::RequestRetried => vec![MetricUpdate::Inc(Metric::RequestsRetriedTotal)],
        SinkEvent::TtsInputWait(d) => vec![MetricUpdate::Observe(Metric::TtsInputWait, d)],
        SinkEvent::TtsWsConnect => vec![MetricUpdate::Inc(Metric::TtsWsConnectTotal)],
        SinkEvent::TtsWsConnectFailed => vec![MetricUpdate::Inc(Metric::TtsWsConnectFailedTotal)],
        SinkEvent::TtsProviderError => vec![MetricUpdate::Inc(Metric::TtsProviderErrorsTotal)],
        SinkEvent::TtsInputChars(n) => vec![MetricUpdate::IncBy(Metric::TtsInputCharsTotal, n)],
        SinkEvent::TtsAudioChunk(n) => vec![MetricUpdate::Inc(Metric::TtsAudioChunksTotal), MetricUpdate::IncBy(Metric::TtsAudioBytesTotal, n)],
        SinkEvent::TtsWsPoolConnectionOpened => vec![MetricUpdate::GaugeInc(Metric::TtsWsPoolConnections)],
        SinkEvent::TtsWsPoolConnectionClosed => vec![MetricUpdate::GaugeDec(Metric::TtsWsPoolConnections)],
        SinkEvent::TtsWsPoolActive(v) => vec![MetricUpdate::GaugeSet(Metric::TtsWsPoolActiveConnections, v)],
        SinkEvent::TtsWsPoolIdle(v) => vec![MetricUpdate::GaugeSet(Metric::TtsWsPoolIdleConnections, v)],
        SinkEvent::TtsWsPoolWaiting(v) => vec![MetricUpdate::GaugeSet(Metric::TtsWsPoolWaiting, v)],
        SinkEvent::TtsWsPoolWaitStarted => vec![MetricUpdate::GaugeInc(Metric::TtsWsPoolWaiting)],
        SinkEvent::TtsWsPoolWaitFinished(d) => vec![MetricUpdate::GaugeDec(Metric::TtsWsPoolWaiting), MetricUpdate::Observe(Metric::TtsWsPoolWaitDuration, d)],
        SinkEvent::TtsWsPoolWait(d) => vec![MetricUpdate::Observe(Metric::TtsWsPoolWaitDuration, d)],
        SinkEvent::TtsWsPoolReaped => vec![MetricUpdate::Inc(Metric::TtsWsPoolReapedTotal)],
        SinkEvent::TtsWsPoolInvalidated => vec![MetricUpdate::Inc(Metric::TtsWsPoolInvalidatedTotal)],
        SinkEvent::TtsAudioDuration(d) => vec![MetricUpdate::Observe(Metric::TtsAudioDuration, d)],
        SinkEvent::TtsAudioChunkInterval(d) => vec![MetricUpdate::Observe(Metric::TtsAudioChunkInterval, d)],
        SinkEvent::ClientFirstAudioReceivedToPlayback(d) => {
            if d <= CLIENT_LIMIT_MICROS {
                vec![MetricUpdate::Observe(Metric::ClientFirstAudioReceivedToPlayback, d)]
            } else {
                Vec::new()
            }
        },
        SinkEvent::ClientInputEndToFinalAudioSent(d) => {
            if d <= CLIENT_LIMIT_MICROS {
                vec![MetricUpdate::Observe(Metric::ClientInputEndToFinalAudioSent, d)]
            } else {
                Vec::new()
            }
        },
    };
    assert(v@ =~= updates_spec(event));
    v
}

/// Measures nothing.
pub struct NoopMetricsSink;

impl NoopMetricsSink {
    /// Changes nothing.
    pub fn updates(&self, event: SinkEvent) -> (r: Vec<MetricUpdate>)
        ensures
            r@ == Seq::<MetricUpdate>::empty(),
    {
        Vec::new()
    }
}

// ---- the moments of an utterance ----

/// The time from one moment to another; none where it comes before.
pub open spec fn since(at: u64, from: u64) -> u64 {
    if at >= from {
        (at - from) as u64
    } else {
        0
    }
}

fn elapsed(at: u64, from: u64) -> (r: u64)
    ensures
        r == since(at, from),
{
    if at >= from {
        at - from
    } else {
        0
    }
}

/// Records the moments of one utterance, each of them once.
pub struct PipelineMetricsGuard {
    pub input_started_at: u64,
    pub input_ended_at: u64,
    pub started_at: u64,
    pub llm_first_text_at: Option<u64>,
    pub tts_first_frame_at: Option<u64>,
    pub first_audio_ws_sent_recorded: bool,
    pub completed_recorded: bool,
    pub result: PipelineResult,
}

impl PipelineMetricsGuard {
    /// Starts with an utterance that was spoken between two moments.
    pub fn start(input_started_at: u64, input_ended_at: u64, now: u64) -> (r: (Self, SinkEvent))
        ensures
            r.0 == (PipelineMetricsGuard {
                input_started_at,
                input_ended_at,
                started_at: now,
                llm_first_text_at: None,
                tts_first_frame_at: None,
                first_audio_ws_sent_recorded: false,
                completed_recorded: false,
                result: PipelineResult::Failed,
            }),
            r.1 == SinkEvent::PipelineStarted,
    {
        (
            PipelineMetricsGuard {
                input_started_at,
                input_ended_at,
                started_at: now,
                llm_first_text_at: None,
                tts_first_frame_at: None,
                first_audio_ws_sent_recorded: false,
                completed_recorded: false,
                result: PipelineResult::Failed,
            },
            SinkEvent::PipelineStarted,
        )
    }

    /// Whether audio was received.
    pub fn has_first_audio(&self) -> (r: bool)
        ensures
            r == (self.tts_first_frame_at is Some),
    {
        self.tts_first_frame_at.is_some()
    }

    /// Records the first audio.
    pub fn record_first_audio(&mut self, at: u64) -> (r: Vec<SinkEvent>)
        ensures
            r@ == old(self).first_frame_events(at),
            *final(self) == old(self).after_first_frame(at),
    {
        self.record_tts_first_frame(at)
    }

    /// The end of recognition, which began at `asr_started_at`.
    pub fn record_asr_output_end(&self, asr_started_at: u64, at: u64) -> (r: Vec<SinkEvent>)
        ensures
            r@ == seq![
                SinkEvent::InputEndToAsrOutputEnd(since(at, self.input_ended_at)),
                SinkEvent::Asr(since(at, asr_started_at)),
            ],
    {
        let v = vec![
            SinkEvent::InputEndToAsrOutputEnd(elapsed(at, self.input_ended_at)),
            SinkEvent::Asr(elapsed(at, asr_started_at)),
        ];
        assert(v@ =~= seq![
            SinkEvent::InputEndToAsrOutputEnd(since(at, self.input_ended_at)),
            SinkEvent::Asr(since(at, asr_started_at)),
        ]);
        v
    }

    /// Records the first text of the language model.
    pub fn record_llm_first_text(&mut self, llm_started_at: u64, at: u64) -> (r: Vec<SinkEvent>)
        ensures
            old(self).llm_first_text_at is Some ==> r@ == Seq::<SinkEvent>::empty() && *final(self)
                == *old(self),
            old(self).llm_first_text_at is None ==> {
                &&& r@ == seq![
                    SinkEvent::InputEndToLlmFirstText(since(at, old(self).input_ended_at)),
                    SinkEvent::LlmFirstToken(since(at, llm_started_at)),
                ]
                &&& *final(self) == (PipelineMetricsGuard {
                    llm_first_text_at: Some(at),
                    ..*old(self)
                })
            },
    {
        if self.llm_first_text_at.is_some() {
            return Vec::new();
        }
        self.llm_first_text_at = Some(at);
        let v = vec![
            SinkEvent::InputEndToLlmFirstText(elapsed(at, self.input_ended_at)),
            SinkEvent::LlmFirstToken(elapsed(at, llm_started_at)),
        ];
        assert(v@ =~= seq![
            SinkEvent::InputEndToLlmFirstText(since(at, old(self).input_ended_at)),
            SinkEvent::LlmFirstToken(since(at, llm_started_at)),
        ]);
        v
    }

    /// What the first audio is reported as; nothing where it was reported before.
    pub open spec fn first_frame_events(&self, at: u64) -> Seq<SinkEvent> {
        if self.tts_first_frame_at is Some {
            Seq::empty()
        } else {
            let e2e = seq![
                SinkEvent::E2eFirstAudio(
                    since(at, self.input_started_at),
                    since(at, self.input_ended_at),
                ),
            ];
            match self.llm_first_text_at {
                Some(t) => e2e.push(SinkEvent::LlmFirstTextToTtsFirstFrame(since(at, t))),
                None => e2e,
            }
        }
    }

    pub open spec fn after_first_frame(&self, at: u64) -> PipelineMetricsGuard {
        if self.tts_first_frame_at is Some {
            *self
        } else {
            PipelineMetricsGuard { tts_first_frame_at: Some(at), ..*self }
        }
    }

    /// Records the first audio.
    pub fn record_tts_first_frame(&mut self, at: u64) -> (r: Vec<SinkEvent>)
        ensures
            r@ == old(self).first_frame_events(at),
            *final(self) == old(self).after_first_frame(at),
    {
        if self.tts_first_frame_at.is_some() {
            return Vec::new();
        }
        self.tts_first_frame_at = Some(at);
        let mut v: Vec<SinkEvent> = Vec::new();
        v.push(
            SinkEvent::E2eFirstAudio(
                elapsed(at, self.input_started_at),
                elapsed(at, self.input_ended_at),
            ),
        );
        if let Some(t) = self.llm_first_text_at {
            v.push(SinkEvent::LlmFirstTextToTtsFirstFrame(elapsed(at, t)));
        }
        assert(v@ =~= old(self).first_frame_events(at));
        v
    }

    /// Records that the first audio was sent on; nothing before there is audio.
    pub fn record_first_audio_ws_sent(&mut self, at: u64) -> (r: Vec<SinkEvent>)
        ensures
            old(self).first_audio_ws_sent_recorded || old(self).tts_first_frame_at is None ==> r@
                == Seq::<SinkEvent>::empty() && *final(self) == *old(self),
            !old(self).first_audio_ws_sent_recorded && old(self).tts_first_frame_at is Some ==> {
                &&& r@ == seq![
                    SinkEvent::InputEndToWsFirstAudioSent(since(at, old(self).input_ended_at)),
                    SinkEvent::TtsFirstFrameToWsFirstAudioSent(
                        since(at, old(self).tts_first_frame_at->0),
                    ),
                ]
                &&& *final(self) == (PipelineMetricsGuard {
                    first_audio_ws_sent_recorded: true,
                    ..*old(self)
                })
            },
    {
        if self.first_audio_ws_sent_recorded {
            return Vec::new();
        }
        match self.tts_first_frame_at {
            None => Vec::new(),
            Some(t) => {
                self.first_audio_ws_sent_recorded = true;
                let v = vec![
                    SinkEvent::InputEndToWsFirstAudioSent(elapsed(at, self.input_ended_at)),
                    SinkEvent::TtsFirstFrameToWsFirstAudioSent(elapsed(at, t)),
                ];
                assert(v@ =~= seq![
                    SinkEvent::InputEndToWsFirstAudioSent(since(at, old(self).input_ended_at)),
                    SinkEvent::TtsFirstFrameToWsFirstAudioSent(since(at, t)),
                ]);
                v
            },
        }
    }

    /// Records the end, once.
    pub fn finish(&mut self, result: PipelineResult, at: u64) -> (r: Option<SinkEvent>)
        ensures
            old(self).completed_recorded ==> r is None && *final(self) == *old(self),
            !old(self).completed_recorded ==> {
                &&& r == Some(
                    SinkEvent::E2eComplete(
                        since(at, old(self).input_started_at),
                        since(at, old(self).input_ended_at),
                    ),
                )
                &&& *final(self) == (PipelineMetricsGuard {
                    completed_recorded: true,
                    result,
                    ..*old(self)
                })
            },
    {
        if self.completed_recorded {
            return None;
        }
        self.completed_recorded = true;
        self.result = result;
        Some(
            SinkEvent::E2eComplete(
                elapsed(at, self.input_started_at),
                elapsed(at, self.input_ended_at),
            ),
        )
    }

    /// Sets how the utterance ended.
    pub fn set_result(&mut self, result: PipelineResult)
        ensures
            *final(self) == (PipelineMetricsGuard { result, ..*old(self) }),
    {
        self.result = result;
    }

    /// What is reported when the utterance is done with: how long it took and how it ended.
    pub fn close(self, now: u64) -> (r: Vec<SinkEvent>)
        ensures
            r@ == seq![
                SinkEvent::PipelineDuration(since(now, self.started_at)),
                SinkEvent::PipelineFinished(self.result),
            ],
    {
        let v = vec![
            SinkEvent::PipelineDuration(elapsed(now, self.started_at)),
            SinkEvent::PipelineFinished(self.result),
        ];
        assert(v@ =~= seq![
            SinkEvent::PipelineDuration(since(now, self.started_at)),
            SinkEvent::PipelineFinished(self.result),
        ]);
        v
    }
}

/// Each metric is registered, and none twice.
pub proof fn law_each_metric_is_registered_once()
    ensures
        forall|m: Metric| all_metrics().contains(m),
        forall|i: int, j: int|
            0 <= i < j < all_metrics().len() ==> all_metrics()[i] != all_metrics()[j],
{
    let t = all_metrics();
    assert forall|m: Metric| t.contains(m) by {
        assert(t[rank_registered(m)] == m);
    }
    assert forall|i: int, j: int| 0 <= i < j < t.len() implies t[i] != t[j] by {
        assert(rank_registered(t[i]) == i);
        assert(rank_registered(t[j]) == j);
    }
}

/// The place of a metric in the order of registration.
pub open spec fn rank_registered(m: Metric) -> int {
    match m {
        Metric::RequestsTotal => 0,
        Metric::RequestsFinishedTotal => 1,
        Metric::RequestsSuccessTotal => 2,
        Metric::RequestsFailedTotal => 3,
        Metric::RequestsTimeoutTotal => 4,
        Metric::RequestsCancelledTotal => 5,
        Metric::E2eInputToFirstAudio => 6,
        Metric::TtsWsConnectTotal => 7,
        Metric::TtsWsConnectFailedTotal => 8,
        Metric::TtsProviderErrorsTotal => 9,
        Metric::TtsInputCharsTotal => 10,
        Metric::TtsAudioChunksTotal => 11,
        Metric::TtsAudioBytesTotal => 12,
        Metric::TtsWsPoolConnections => 13,
        Metric::TtsWsPoolActiveConnections => 14,
        Metric::TtsWsPoolIdleConnections => 15,
        Metric::TtsWsPoolWaiting => 16,
        Metric::TtsWsPoolWaitDuration => 17,
        Metric::TtsWsPoolReapedTotal => 18,
        Metric::TtsWsPoolInvalidatedTotal => 19,
        Metric::TtsAudioDuration => 20,
        Metric::TtsAudioChunkInterval => 21,
        Metric::TtsRealtimeFactor => 22,
        Metric::ClientFirstAudioReceivedToPlayback => 23,
        Metric::ClientInputEndToFinalAudioSent => 24,
        Metric::RequestsRetriedTotal => 25,
        Metric::TtsInputWait => 26,
        Metric::InputEndToAsrOutputEnd => 27,
        Metric::InputEndToLlmFirstText => 28,
        Metric::InputEndToTtsFirstFrame => 29,
        Metric::InputEndToWsFirstAudioSent => 30,
        Metric::LlmFirstTextToTtsFirstFrame => 31,
        Metric::TtsFirstFrameToWsFirstAudioSent => 32,
        Metric::E2eInputToComplete => 33,
        Metric::E2eUtteranceEndToComplete => 34,
        Metric::AsrInputToOutputEnd => 35,
        Metric::PipelineQueueDuration => 36,
        Metric::LlmInputToFirstText => 37,
        Metric::LlmDuration => 38,
        Metric::LlmRouteDuration => 39,
        Metric::LlmRouteTotal => 40,
        Metric::LlmEscalationTotal => 41,
        Metric::TtsTimeToFirstAudio => 42,
        Metric::TtsGenerationDuration => 43,
        Metric::PipelineDuration => 44,
    }
}

/// The length of a name and two of its characters, by which it can be told from the others.
pub open spec fn name_key(m: Metric) -> (nat, char, char) {
    match m {
        Metric::RequestsTotal => (20, 'r', 'l'),
        Metric::RequestsFinishedTotal => (29, 'r', 's'),
        Metric::RequestsSuccessTotal => (28, 'r', 'e'),
        Metric::RequestsFailedTotal => (27, 'r', 'e'),
        Metric::RequestsTimeoutTotal => (28, 'r', 'o'),
        Metric::RequestsCancelledTotal => (30, 'r', 'e'),
        Metric::E2eInputToFirstAudio => (42, 'e', 't'),
        Metric::TtsWsConnectTotal => (26, 't', 't'),
        Metric::TtsWsConnectFailedTotal => (33, 't', 't'),
        Metric::TtsProviderErrorsTotal => (31, 't', 'e'),
        Metric::TtsInputCharsTotal => (27, 't', 'r'),
        Metric::TtsAudioChunksTotal => (28, 't', 'n'),
        Metric::TtsAudioBytesTotal => (27, 't', 'e'),
        Metric::TtsWsPoolConnections => (29, 't', 'o'),
        Metric::TtsWsPoolActiveConnections => (36, 't', 'c'),
        Metric::TtsWsPoolIdleConnections => (34, 't', 'd'),
        Metric::TtsWsPoolWaiting => (25, 't', 'a'),
        Metric::TtsWsPoolWaitDuration => (39, 't', 'a'),
        Metric::TtsWsPoolReapedTotal => (30, 't', 'e'),
        Metric::TtsWsPoolInvalidatedTotal => (35, 't', 'n'),
        Metric::TtsAudioDuration => (32, 't', 'a'),
        Metric::TtsAudioChunkInterval => (38, 't', 'n'),
        Metric::TtsRealtimeFactor => (25, 't', 'f'),
        Metric::ClientFirstAudioReceivedToPlayback => (53, 'c', 'a'),
        Metric::ClientInputEndToFinalAudioSent => (50, 'c', 'e'),
        Metric::RequestsRetriedTotal => (28, 'r', 'i'),
        Metric::TtsInputWait => (28, 't', 't'),
        Metric::InputEndToAsrOutputEnd => (41, 'i', 'a'),
        Metric::InputEndToLlmFirstText => (41, 'i', 'l'),
        Metric::InputEndToTtsFirstFrame => (42, 'i', 't'),
        Metric::InputEndToWsFirstAudioSent => (46, 'i', 'w'),
        Metric::LlmFirstTextToTtsFirstFrame => (47, 'l', 't'),
        Metric::TtsFirstFrameToWsFirstAudioSent => (52, 't', 'm'),
        Metric::E2eInputToComplete => (39, 'e', 't'),
        Metric::E2eUtteranceEndToComplete => (47, 'e', '_'),
        Metric::AsrInputToOutputEnd => (37, 'a', 'o'),
        Metric::PipelineQueueDuration => (37, 'p', 'e'),
        Metric::LlmInputToFirstText => (37, 'l', 'f'),
        Metric::LlmDuration => (26, 'l', 's'),
        Metric::LlmRouteDuration => (32, 'l', 'a'),
        Metric::LlmRouteTotal => (21, 'l', 'a'),
        Metric::LlmEscalationTotal => (26, 'l', 'n'),
        Metric::TtsTimeToFirstAudio => (37, 't', 'i'),
        Metric::TtsGenerationDuration => (37, 't', 'n'),
        Metric::PipelineDuration => (31, 'p', 't'),
    }
}

proof fn lemma_name_key(m: Metric)
    ensures
        ({
            let name = m.name_spec();
            (name.len(), name[6], name[19]) == name_key(m)
        }),
{
    match m {
        Metric::RequestsTotal => {
            reveal_strlit("voice_requests_total");
        },
        Metric::RequestsFinishedTotal => {
            reveal_strlit("voice_requests_finished_total");
        },
        Metric::RequestsSuccessTotal => {
            reveal_strlit("voice_requests_success_total");
        },
        Metric::RequestsFailedTotal => {
            reveal_strlit("voice_requests_failed_total");
        },
        Metric::RequestsTimeoutTotal => {
            reveal_strlit("voice_requests_timeout_total");
        },
        Metric::RequestsCancelledTotal => {
            reveal_strlit("voice_requests_cancelled_total");
        },
        Metric::E2eInputToFirstAudio => {
            reveal_strlit("voice_e2e_input_to_tts_first_audio_seconds");
        },
        Metric::TtsWsConnectTotal => {
            reveal_strlit("voice_tts_ws_connect_total");
        },
        Metric::TtsWsConnectFailedTotal => {
            reveal_strlit("voice_tts_ws_connect_failed_total");
        },
        Metric::TtsProviderErrorsTotal => {
            reveal_strlit("voice_tts_provider_errors_total");
        },
        Metric::TtsInputCharsTotal => {
            reveal_strlit("voice_tts_input_chars_total");
        },
        Metric::TtsAudioChunksTotal => {
            reveal_strlit("voice_tts_audio_chunks_total");
        },
        Metric::TtsAudioBytesTotal => {
            reveal_strlit("voice_tts_audio_bytes_total");
        },
        Metric::TtsWsPoolConnections => {
            reveal_strlit("voice_tts_ws_pool_connections");
        },
        Metric::TtsWsPoolActiveConnections => {
            reveal_strlit("voice_tts_ws_pool_active_connections");
        },
        Metric::TtsWsPoolIdleConnections => {
            reveal_strlit("voice_tts_ws_pool_idle_connections");
        },
        Metric::TtsWsPoolWaiting => {
            reveal_strlit("voice_tts_ws_pool_waiting");
        },
        Metric::TtsWsPoolWaitDuration => {
            reveal_strlit("voice_tts_ws_pool_wait_duration_seconds");
        },
        Metric::TtsWsPoolReapedTotal => {
            reveal_strlit("voice_tts_ws_pool_reaped_total");
        },
        Metric::TtsWsPoolInvalidatedTotal => {
            reveal_strlit("voice_tts_ws_pool_invalidated_total");
        },
        Metric::TtsAudioDuration => {
            reveal_strlit("voice_tts_audio_duration_seconds");
        },
        Metric::TtsAudioChunkInterval => {
            reveal_strlit("voice_tts_audio_chunk_interval_seconds");
        },
        Metric::TtsRealtimeFactor => {
            reveal_strlit("voice_tts_realtime_factor");
        },
        Metric::ClientFirstAudioReceivedToPlayback => {
            reveal_strlit("voice_client_first_audio_received_to_playback_seconds");
        },
        Metric::ClientInputEndToFinalAudioSent => {
            reveal_strlit("voice_client_input_end_to_final_audio_sent_seconds");
        },
        Metric::RequestsRetriedTotal => {
            reveal_strlit("voice_requests_retried_total");
        },
        Metric::TtsInputWait => {
            reveal_strlit("voice_tts_input_wait_seconds");
        },
        Metric::InputEndToAsrOutputEnd => {
            reveal_strlit("voice_input_end_to_asr_output_end_seconds");
        },
        Metric::InputEndToLlmFirstText => {
            reveal_strlit("voice_input_end_to_llm_first_text_seconds");
        },
        Metric::InputEndToTtsFirstFrame => {
            reveal_strlit("voice_input_end_to_tts_first_frame_seconds");
        },
        Metric::InputEndToWsFirstAudioSent => {
            reveal_strlit("voice_input_end_to_ws_first_audio_sent_seconds");
        },
        Metric::LlmFirstTextToTtsFirstFrame => {
            reveal_strlit("voice_llm_first_text_to_tts_first_frame_seconds");
        },
        Metric::TtsFirstFrameToWsFirstAudioSent => {
            reveal_strlit("voice_tts_first_frame_to_ws_first_audio_sent_seconds");
        },
        Metric::E2eInputToComplete => {
            reveal_strlit("voice_e2e_input_to_tts_complete_seconds");
        },
        Metric::E2eUtteranceEndToComplete => {
            reveal_strlit("voice_e2e_utterance_end_to_tts_complete_seconds");
        },
        Metric::AsrInputToOutputEnd => {
            reveal_strlit("voice_asr_input_to_output_end_seconds");
        },
        Metric::PipelineQueueDuration => {
            reveal_strlit("voice_pipeline_queue_duration_seconds");
        },
        Metric::LlmInputToFirstText => {
            reveal_strlit("voice_llm_input_to_first_text_seconds");
        },
        Metric::LlmDuration => {
            reveal_strlit("voice_llm_duration_seconds");
        },
        Metric::LlmRouteDuration => {
            reveal_strlit("voice_llm_route_duration_seconds");
        },
        Metric::LlmRouteTotal => {
            reveal_strlit("voice_llm_route_total");
        },
        Metric::LlmEscalationTotal => {
            reveal_strlit("voice_llm_escalation_total");
        },
        Metric::TtsTimeToFirstAudio => {
            reveal_strlit("voice_tts_time_to_first_audio_seconds");
        },
        Metric::TtsGenerationDuration => {
            reveal_strlit("voice_tts_generation_duration_seconds");
        },
        Metric::PipelineDuration => {
            reveal_strlit("voice_pipeline_duration_seconds");
        },
    }
}

/// No two metrics have one name.
pub proof fn law_metric_names_are_unique(a: Metric, b: Metric)
    requires
        a != b,
    ensures
        a.name_spec() != b.name_spec(),
{
    lemma_name_key(a);
    lemma_name_key(b);
}

/// A pipeline that ends is counted twice: among all that ended, and among those that ended its
/// way.
pub proof fn law_finished_pipeline_is_counted(result: PipelineResult)
    ensures
        updates_spec(SinkEvent::PipelineFinished(result)) == seq![
            MetricUpdate::IncLabelled(Metric::RequestsFinishedTotal, LabelValues::Result(result)),
            MetricUpdate::Inc(result_counter(result)),
        ],
{
}

/// How far an update moves a gauge.
pub open spec fn moves(u: MetricUpdate, m: Metric) -> int {
    match u {
        MetricUpdate::GaugeInc(g) => if g == m {
            1
        } else {
            0
        },
        MetricUpdate::GaugeDec(g) => if g == m {
            -1
        } else {
            0
        },
        _ => 0,
    }
}

/// How far updates move a gauge.
pub open spec fn net(us: Seq<MetricUpdate>, m: Metric) -> int
    decreases us.len(),
{
    if us.len() == 0 {
        0
    } else {
        net(us.drop_last(), m) + moves(us.last(), m)
    }
}

proof fn lemma_net_of_one(u: MetricUpdate, m: Metric)
    ensures
        net(seq![u], m) == moves(u, m),
{
    assert(seq![u].drop_last() =~= Seq::<MetricUpdate>::empty());
    assert(net(seq![u].drop_last(), m) == 0);
}

proof fn lemma_net_of_two(u: MetricUpdate, v: MetricUpdate, m: Metric)
    ensures
        net(seq![u, v], m) == moves(u, m) + moves(v, m),
{
    assert(seq![u, v].drop_last() =~= seq![u]);
    lemma_net_of_one(u, m);
}

/// What goes up comes down: a connection that is opened and closed, and a wait that begins and
/// ends, leave every gauge as it was, and each of the four moves one.
pub proof fn law_gauges_balance(d: u64, m: Metric)
    ensures
        net(updates_spec(SinkEvent::TtsWsPoolConnectionOpened), m) + net(
            updates_spec(SinkEvent::TtsWsPoolConnectionClosed),
            m,
        ) == 0,
        net(updates_spec(SinkEvent::TtsWsPoolWaitStarted), m) + net(
            updates_spec(SinkEvent::TtsWsPoolWaitFinished(d)),
            m,
        ) == 0,
        net(updates_spec(SinkEvent::TtsWsPoolConnectionOpened), Metric::TtsWsPoolConnections) == 1,
        net(updates_spec(SinkEvent::TtsWsPoolWaitStarted), Metric::TtsWsPoolWaiting) == 1,
{
    lemma_net_of_one(MetricUpdate::GaugeInc(Metric::TtsWsPoolConnections), m);
    lemma_net_of_one(
        MetricUpdate::GaugeInc(Metric::TtsWsPoolConnections),
        Metric::TtsWsPoolConnections,
    );
    lemma_net_of_one(MetricUpdate::GaugeDec(Metric::TtsWsPoolConnections), m);
    lemma_net_of_one(MetricUpdate::GaugeInc(Metric::TtsWsPoolWaiting), m);
    lemma_net_of_one(MetricUpdate::GaugeInc(Metric::TtsWsPoolWaiting), Metric::TtsWsPoolWaiting);
    lemma_net_of_two(
        MetricUpdate::GaugeDec(Metric::TtsWsPoolWaiting),
        MetricUpdate::Observe(Metric::TtsWsPoolWaitDuration, d),
        m,
    );
}

/// An update fits its metric: what is counted is a counter, what is observed a histogram, what goes
/// up and down a gauge; and it has as many labels as the metric.
pub open spec fn fits(u: MetricUpdate) -> bool {
    match u {
        MetricUpdate::Inc(m) => m.kind_spec() == MetricKind::Counter && m.label_names_spec().len() == 0,
        MetricUpdate::IncBy(m, _) => m.kind_spec() == MetricKind::Counter && m.label_names_spec().len()
            == 0,
        MetricUpdate::IncLabelled(m, l) => m.kind_spec() == MetricKind::CounterVec
            && m.label_names_spec().len() == l.values_spec().len() && l.values_spec().len() > 0,
        MetricUpdate::Observe(m, _) => m.kind_spec() == MetricKind::Histogram
            && m.label_names_spec().len() == 0,
        MetricUpdate::GaugeInc(m) => m.kind_spec() == MetricKind::Gauge,
        MetricUpdate::GaugeDec(m) => m.kind_spec() == MetricKind::Gauge,
        MetricUpdate::GaugeSet(m, _) => m.kind_spec() == MetricKind::Gauge,
    }
}

/// Whatever happens, every update that it brings about fits its metric.
#[verifier::spinoff_prover]
#[verifier::rlimit(60)]
pub proof fn law_updates_fit_their_metrics(event: SinkEvent, i: int)
    requires
        0 <= i < updates_spec(event).len(),
    ensures
        fits(updates_spec(event)[i]),
{
    let us = updates_spec(event);
    assert(us.len() <= 2);
    if i == 0 {
        assert(fits(us[0]));
    } else {
        assert(fits(us[1]));
    }
}

/// Only a duration that a client tells and that is too long leaves no trace.
pub proof fn law_everything_is_measured(event: SinkEvent)
    ensures
        updates_spec(event).len() == 0 ==> (event matches SinkEvent::ClientFirstAudioReceivedToPlayback(
            d,
        ) && d > CLIENT_LIMIT_MICROS) || (event matches SinkEvent::ClientInputEndToFinalAudioSent(d)
            && d > CLIENT_LIMIT_MICROS),
{
}

/// The first audio is reported once, whatever comes after it.
pub proof fn law_first_audio_is_reported_once(g: PipelineMetricsGuard, at: u64, later: u64)
    ensures
        g.after_first_frame(at).first_frame_events(later).len() == 0,
        g.after_first_frame(at).after_first_frame(later) == g.after_first_frame(at),
        g.tts_first_frame_at is None ==> g.first_frame_events(at).len() > 0,
{
}

/// How a pipeline ended is counted once and apart: only a success as a success, only a timeout as a
/// timeout, only a cancellation as one, and everything else as a failure.
pub proof fn law_endings_are_counted_apart(result: PipelineResult)
    ensures
        ({
            let us = updates_spec(SinkEvent::PipelineFinished(result));
            let counts = |m: Metric| us.contains(MetricUpdate::Inc(m));
            &&& counts(Metric::RequestsSuccessTotal) <==> result == PipelineResult::Success
            &&& counts(Metric::RequestsTimeoutTotal) <==> result == PipelineResult::Timeout
            &&& counts(Metric::RequestsCancelledTotal) <==> result == PipelineResult::Cancelled
            &&& counts(Metric::RequestsFailedTotal) <==> result == PipelineResult::Failed || result
                == PipelineResult::EmptyResponse
        }),
{
    let us = updates_spec(SinkEvent::PipelineFinished(result));
    assert(us.len() == 2);
    assert(us[1] == MetricUpdate::Inc(result_counter(result)));
}

/// What was measured is what is observed: a duration reaches a histogram unchanged, and a number
/// reaches its counter unchanged.
pub proof fn law_measures_are_kept(d: u64, e: u64, n: u64)
    ensures
        observed(updates_spec(SinkEvent::PipelineDuration(d))) == seq![d],
        observed(updates_spec(SinkEvent::Queue(d))) == seq![d],
        observed(updates_spec(SinkEvent::Asr(d))) == seq![d],
        observed(updates_spec(SinkEvent::LlmFirstToken(d))) == seq![d],
        observed(updates_spec(SinkEvent::LlmComplete(d))) == seq![d],
        observed(updates_spec(SinkEvent::TtsFirstAudio(d))) == seq![d],
        observed(updates_spec(SinkEvent::TtsComplete(d))) == seq![d],
        observed(updates_spec(SinkEvent::E2eFirstAudio(d, e))) == seq![d, e],
        observed(updates_spec(SinkEvent::E2eComplete(d, e))) == seq![d, e],
        observed(updates_spec(SinkEvent::TtsWsPoolWait(d))) == seq![d],
        updates_spec(SinkEvent::TtsInputChars(n)).contains(
            MetricUpdate::IncBy(Metric::TtsInputCharsTotal, n),
        ),
        updates_spec(SinkEvent::TtsAudioChunk(n)).contains(
            MetricUpdate::IncBy(Metric::TtsAudioBytesTotal, n),
        ),
{
    lemma_observed_one(Metric::PipelineDuration, d);
    lemma_observed_one(Metric::PipelineQueueDuration, d);
    lemma_observed_one(Metric::AsrInputToOutputEnd, d);
    lemma_observed_one(Metric::LlmInputToFirstText, d);
    lemma_observed_one(Metric::LlmDuration, d);
    lemma_observed_one(Metric::TtsTimeToFirstAudio, d);
    lemma_observed_one(Metric::TtsGenerationDuration, d);
    lemma_observed_one(Metric::TtsWsPoolWaitDuration, d);
    lemma_observed_two(Metric::E2eInputToFirstAudio, d, Metric::InputEndToTtsFirstFrame, e);
    lemma_observed_two(Metric::E2eInputToComplete, d, Metric::E2eUtteranceEndToComplete, e);
    assert(updates_spec(SinkEvent::TtsInputChars(n))[0] == MetricUpdate::IncBy(
        Metric::TtsInputCharsTotal,
        n,
    ));
    assert(updates_spec(SinkEvent::TtsAudioChunk(n))[1] == MetricUpdate::IncBy(
        Metric::TtsAudioBytesTotal,
        n,
    ));
}

/// The durations that are observed, in order.
pub open spec fn observed(us: Seq<MetricUpdate>) -> Seq<u64>
    decreases us.len(),
{
    if us.len() == 0 {
        Seq::empty()
    } else {
        match us.last() {
            MetricUpdate::Observe(_, d) => observed(us.drop_last()).push(d),
            _ => observed(us.drop_last()),
        }
    }
}

proof fn lemma_observed_one(m: Metric, d: u64)
    ensures
        observed(seq![MetricUpdate::Observe(m, d)]) == seq![d],
{
    let us = seq![MetricUpdate::Observe(m, d)];
    assert(us.drop_last() =~= Seq::<MetricUpdate>::empty());
    assert(observed(us.drop_last()) =~= Seq::<u64>::empty());
    assert(Seq::<u64>::empty().push(d) =~= seq![d]);
}

proof fn lemma_observed_two(m: Metric, d: u64, n: Metric, e: u64)
    ensures
        observed(seq![MetricUpdate::Observe(m, d), MetricUpdate::Observe(n, e)]) == seq![d, e],
{
    let us = seq![MetricUpdate::Observe(m, d), MetricUpdate::Observe(n, e)];
    assert(us.drop_last() =~= seq![MetricUpdate::Observe(m, d)]);
    lemma_observed_one(m, d);
    assert(seq![d].push(e) =~= seq![d, e]);
}

/// Times add up: what passed from one moment to a third is what passed up to a moment between and
/// from there on. A clock that went back counts as no time.
pub proof fn law_time_adds_up(a: u64, b: u64, c: u64)
    ensures
        a <= b ==> a + since(b, a) == b,
        a <= b <= c ==> since(c, a) == since(c, b) + since(b, a),
        b <= a ==> since(b, a) == 0,
{
}

} // verus!
