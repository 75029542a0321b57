# Copy to config.toml beside the server.
api_key = ""
model = "deepseek-v4-flash-0731"
# base_url = "https://example.invalid/v1"
listen = "127.0.0.1:8080"
tool_timeout_secs = 60
follow_up_policy = "noop" # or "example_order"
log_level = "info"

[persist]
enabled = true
data_dir = "./data"
instance_id = "" # made up where it is empty

[context]
summarize_threshold_tokens = 80000
keep_last_messages = 24
max_context_tokens = 120000
